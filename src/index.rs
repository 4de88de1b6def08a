//! The index of extracted articles, with the count of articles still owed to it.
use vstd::prelude::*;
use crate::feed::ArticleJob;

verus! {

/// One indexed article.
pub struct IndexEntry {
    pub site: String,
    pub title: String,
    pub url: String,
    pub words: Vec<String>,
}

/// The mathematical value of an indexed article: site, title, URL and words.
pub type IndexedView = (Seq<char>, Seq<char>, Seq<char>, Seq<Seq<char>>);

pub open spec fn words_view(w: Seq<String>) -> Seq<Seq<char>> {
    w.map_values(|s: String| s@)
}

impl IndexEntry {
    pub open spec fn view(&self) -> IndexedView {
        (self.site@, self.title@, self.url@, words_view(self.words@))
    }
}

/// How many entries of `es` are for `site`.
pub open spec fn site_count(es: Seq<IndexedView>, site: Seq<char>) -> nat
    decreases es.len(),
{
    if es.len() == 0 {
        0
    } else {
        site_count(es.drop_last(), site) + (if es.last().0 == site { 1nat } else { 0nat })
    }
}

/// Extracted articles in the order they were added, and the number of article
/// fetches dispatched to it and of those that failed. Every dispatched fetch
/// ends in exactly one entry or one failure.
pub struct ArticleIndex {
    entries: Vec<IndexEntry>,
    expected: u64,
    failed: u64,
}

impl ArticleIndex {
    pub closed spec fn view(&self) -> Seq<IndexedView> {
        self.entries@.map_values(|e: IndexEntry| e@)
    }

    /// Fetches dispatched so far.
    pub closed spec fn expected(&self) -> nat {
        self.expected as nat
    }

    /// Fetches that ended without an entry.
    pub closed spec fn failed(&self) -> nat {
        self.failed as nat
    }

    /// Fetches dispatched that have not ended yet.
    pub open spec fn pending(&self) -> int {
        self.expected() - self.failed() - self@.len()
    }

    /// No fetch has ended more than once.
    pub open spec fn wf(&self) -> bool {
        self.pending() >= 0
    }

    /// An empty index with nothing dispatched.
    pub fn new() -> (r: ArticleIndex)
        ensures
            r.wf(),
            r@ == Seq::<IndexedView>::empty(),
            r.expected() == 0,
            r.failed() == 0,
    {
        let r = ArticleIndex { entries: Vec::new(), expected: 0, failed: 0 };
        assert(r@ =~= Seq::<IndexedView>::empty());
        r
    }

    /// Records that one more article fetch was dispatched.
    pub fn expect(&mut self)
        requires
            old(self).wf(),
            old(self).expected() < u64::MAX,
        ensures
            final(self).wf(),
            final(self)@ == old(self)@,
            final(self).expected() == old(self).expected() + 1,
            final(self).failed() == old(self).failed(),
    {
        self.expected = self.expected + 1;
    }

    /// Adds an extracted article, ending one pending fetch.
    pub fn add(&mut self, site: String, title: String, url: String, words: Vec<String>)
        requires
            old(self).wf(),
            old(self).pending() > 0,
        ensures
            final(self).wf(),
            final(self)@ == old(self)@.push((site@, title@, url@, words_view(words@))),
            final(self).expected() == old(self).expected(),
            final(self).failed() == old(self).failed(),
    {
        let e = IndexEntry { site, title, url, words };
        self.entries.push(e);
        assert(self@ =~= old(self)@.push(e@));
    }

    /// Ends one pending fetch that produced nothing.
    pub fn record_failure(&mut self)
        requires
            old(self).wf(),
            old(self).pending() > 0,
        ensures
            final(self).wf(),
            final(self)@ == old(self)@,
            final(self).expected() == old(self).expected(),
            final(self).failed() == old(self).failed() + 1,
    {
        self.failed = self.failed + 1;
    }

    /// Ends the fetch of `job`: its words are indexed under its host where
    /// extraction gave some, and a failure is counted where it did not.
    pub fn finish(&mut self, job: ArticleJob, words: Option<Vec<String>>)
        requires
            old(self).wf(),
            old(self).pending() > 0,
        ensures
            final(self).wf(),
            final(self).expected() == old(self).expected(),
            final(self).pending() == old(self).pending() - 1,
            words matches Some(w) ==> final(self)@ == old(self)@.push(
                (job.host@, job.title@, job.url@, words_view(w@)),
            ) && final(self).failed() == old(self).failed(),
            words is None ==> final(self)@ == old(self)@ && final(self).failed() == old(self).failed() + 1,
    {
        match words {
            Some(w) => self.add(job.host, job.title, job.url, w),
            None => self.record_failure(),
        }
    }

    /// Whether every dispatched fetch has ended.
    pub fn is_complete(&self) -> (r: bool)
        requires
            self.wf(),
        ensures
            r == (self.pending() == 0),
    {
        self.entries.len() as u64 + self.failed == self.expected
    }

    /// The number of indexed articles.
    pub fn len(&self) -> (r: usize)
        ensures
            r == self@.len(),
    {
        self.entries.len()
    }

    /// The number of failed fetches.
    pub fn failures(&self) -> (r: u64)
        ensures
            r == self.failed(),
    {
        self.failed
    }

    /// The number of indexed articles of `site`.
    pub fn count_for(&self, site: &str) -> (r: usize)
        ensures
            r == site_count(self@, site@),
    {
        let key = site.to_owned();
        let mut n: usize = 0;
        let mut i: usize = 0;
        while i < self.entries.len()
            invariant
                i <= self.entries@.len(),
                key@ == site@,
                n == site_count(self@.subrange(0, i as int), site@),
                n <= i,
            decreases self.entries@.len() - i,
        {
            assert(self@.subrange(0, i + 1).drop_last() =~= self@.subrange(0, i as int));
            if self.entries[i].site == key {
                n = n + 1;
            }
            i = i + 1;
        }
        assert(self@.subrange(0, self.entries@.len() as int) =~= self@);
        n
    }

    /// The title, URL and words of the `i`-th indexed article.
    pub fn entry(&self, i: usize) -> (r: &IndexEntry)
        requires
            i < self@.len(),
        ensures
            r@ == self@[i as int],
    {
        &self.entries[i]
    }
}

/// Once every dispatched fetch has ended, the index holds exactly one entry
/// for each fetch that did not fail: none was dropped.
pub proof fn lemma_complete_index(ix: &ArticleIndex)
    requires
        ix.wf(),
        ix.pending() == 0,
    ensures
        ix@.len() == ix.expected() - ix.failed(),
{
}

} // verus!
