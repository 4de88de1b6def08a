//! Feed documents and the acceptance of their entries: which entries are
//! fetched, which are skipped, and on which host an article lives.
use vstd::prelude::*;
use crate::seen::SeenSet;

verus! {

/// rss::Error, the error of a feed document that does not parse; carried, never read.
#[verifier::external_type_specification]
#[verifier::external_body]
pub struct ExRssError(rss::Error);

/// What a feed document lists, entry by entry: a link and a title, either of
/// which may be missing.
pub uninterp spec fn channel_items(b: Seq<u8>) -> Option<Seq<(Option<Seq<char>>, Option<Seq<char>>)>>;

/// The host name of a URL, where it parses and has one.
pub uninterp spec fn url_host(s: Seq<char>) -> Option<Seq<char>>;

/// The mathematical value of an optional string.
pub open spec fn opt_view(o: Option<String>) -> Option<Seq<char>> {
    match o {
        Some(s) => Some(s@),
        None => None,
    }
}

/// One entry of a feed document: a feed of the feed list, or an article of a feed.
pub struct FeedEntry {
    pub link: Option<String>,
    pub title: Option<String>,
}

impl FeedEntry {
    pub open spec fn view(&self) -> (Option<Seq<char>>, Option<Seq<char>>) {
        (opt_view(self.link), opt_view(self.title))
    }

    /// An entry with the given link and title.
    pub fn new(link: Option<String>, title: Option<String>) -> (r: FeedEntry)
        ensures
            r.link == link,
            r.title == title,
    {
        FeedEntry { link, title }
    }
}

/// An article accepted for fetching.
pub struct ArticleJob {
    pub url: String,
    pub title: String,
    pub host: String,
}

/// Why a crawl cannot start.
#[derive(Debug)]
pub enum CrawlError {
    /// The feed list could not be opened.
    Io,
    /// The feed list is not a feed document.
    Parse,
}

pub open spec fn entries_view(v: Seq<FeedEntry>) -> Seq<(Option<Seq<char>>, Option<Seq<char>>)> {
    v.map_values(|e: FeedEntry| e@)
}

/// The link of an entry that has both a link and a title; such an entry is
/// fetched unless its link was claimed before.
pub open spec fn usable_link(e: (Option<Seq<char>>, Option<Seq<char>>)) -> Option<Seq<char>> {
    if e.0 is Some && e.1 is Some {
        e.0
    } else {
        None
    }
}

/// The mathematical value of a feed entry: its link and its title.
pub type EntryView = (Option<Seq<char>>, Option<Seq<char>>);

/// The claimed set after taking `es` in order, starting from `s`, where `f`
/// gives the link that an entry claims, if any.
pub open spec fn seen_after(f: spec_fn(EntryView) -> Option<Seq<char>>, s: Set<Seq<char>>, es: Seq<EntryView>) -> Set<Seq<char>>
    decreases es.len(),
{
    if es.len() == 0 {
        s
    } else {
        let p = seen_after(f, s, es.drop_last());
        match f(es.last()) {
            Some(l) => p.insert(l),
            None => p,
        }
    }
}

/// The links taken, in order, from `es` starting with claimed set `s`: each
/// link that `f` gives and that no earlier claim took.
pub open spec fn taken_links(f: spec_fn(EntryView) -> Option<Seq<char>>, s: Set<Seq<char>>, es: Seq<EntryView>) -> Seq<Seq<char>>
    decreases es.len(),
{
    if es.len() == 0 {
        Seq::empty()
    } else {
        let pre = taken_links(f, s, es.drop_last());
        match f(es.last()) {
            Some(l) => if seen_after(f, s, es.drop_last()).contains(l) {
                pre
            } else {
                pre.push(l)
            },
            None => pre,
        }
    }
}

/// Relies on rss::Channel::read_from: parses a feed document, and its items'
/// `link` and `title` give each entry.
#[verifier::external_body]
fn parse_channel(bytes: &[u8]) -> (r: Result<Vec<FeedEntry>, rss::Error>)
    ensures
        r is Ok <==> channel_items(bytes@) is Some,
        r matches Ok(v) ==> entries_view(v@) == channel_items(bytes@)->0,
{
    rss::Channel::read_from(bytes).map(|c| {
        c.items().iter().map(|i| FeedEntry {
            link: i.link().map(|l| l.to_string()),
            title: i.title().map(|t| t.to_string()),
        }).collect()
    })
}

/// Relies on url::Url::parse and Url::host_str: the host of a URL that parses.
#[verifier::external_body]
fn host_of(s: &str) -> (r: Option<String>)
    ensures
        opt_view(r) == url_host(s@),
{
    match url::Url::parse(s) {
        Ok(u) => u.host_str().map(|h| h.to_string()),
        Err(_) => None,
    }
}

/// The entries of a feed document; a document that does not parse is an error.
pub fn read_entries(bytes: &[u8]) -> (r: Result<Vec<FeedEntry>, CrawlError>)
    ensures
        r is Ok <==> channel_items(bytes@) is Some,
        r matches Ok(v) ==> entries_view(v@) == channel_items(bytes@)->0,
        r matches Err(e) ==> e is Parse,
{
    match parse_channel(bytes) {
        Ok(v) => Ok(v),
        Err(_) => Err(CrawlError::Parse),
    }
}

/// Takes one entry: an entry without a link or a title is skipped and claims
/// nothing; otherwise its link is claimed, and returned if the claim won.
pub fn take_entry(e: &FeedEntry, seen: &mut SeenSet) -> (r: Option<String>)
    ensures
        usable_link(e@) is None ==> r is None && final(seen)@ == old(seen)@,
        usable_link(e@) matches Some(l) ==> {
            &&& final(seen)@ == old(seen)@.insert(l)
            &&& opt_view(r) == if old(seen)@.contains(l) { None } else { Some(l) }
        },
{
    match (&e.link, &e.title) {
        (Some(l), Some(_)) => {
            if seen.claim(l.as_str()) {
                Some(l.clone())
            } else {
                None
            }
        },
        _ => None,
    }
}

/// The feeds of a feed list to fetch, in list order: every entry with a link
/// and a title whose link no earlier claim took. Each one is claimed in `seen`.
pub fn plan_feeds(entries: &Vec<FeedEntry>, seen: &mut SeenSet) -> (r: Vec<String>)
    ensures
        final(seen)@ == seen_after(|e: EntryView| usable_link(e), old(seen)@, entries_view(entries@)),
        r@.map_values(|s: String| s@) == taken_links(|e: EntryView| usable_link(e), old(seen)@, entries_view(entries@)),
{
    let ghost s0 = seen@;
    let ghost es = entries_view(entries@);
    let mut out: Vec<String> = Vec::new();
    let mut i: usize = 0;
    while i < entries.len()
        invariant
            i <= entries@.len(),
            es == entries_view(entries@),
            seen@ == seen_after(|e: EntryView| usable_link(e), s0, es.subrange(0, i as int)),
            out@.map_values(|s: String| s@) == taken_links(|e: EntryView| usable_link(e), s0, es.subrange(0, i as int)),
        decreases entries@.len() - i,
    {
        let ghost pre = es.subrange(0, i as int);
        let ghost outv = out@.map_values(|s: String| s@);
        assert(es.subrange(0, i + 1).drop_last() =~= pre);
        assert(es.subrange(0, i + 1).last() == entries@[i as int]@);
        match take_entry(&entries[i], seen) {
            Some(l) => {
                out.push(l);
                assert(out@.map_values(|s: String| s@) =~= outv.push(l@));
            },
            None => {
                assert(out@.map_values(|s: String| s@) =~= outv);
            },
        }
        i = i + 1;
    }
    assert(es.subrange(0, entries@.len() as int) =~= es);
    out
}

/// The articles taken, in order, from `es` starting with claimed set `s`, as
/// (link, title) pairs: each entry with a link and a title claims its link,
/// and is taken where that claim won and the link has a host.
pub open spec fn taken_articles(s: Set<Seq<char>>, es: Seq<EntryView>) -> Seq<(Seq<char>, Seq<char>)>
    decreases es.len(),
{
    if es.len() == 0 {
        Seq::empty()
    } else {
        let pre = taken_articles(s, es.drop_last());
        let e = es.last();
        match usable_link(e) {
            Some(l) => if !seen_after(|x: EntryView| usable_link(x), s, es.drop_last()).contains(l)
                && url_host(l) is Some {
                pre.push((l, e.1->0))
            } else {
                pre
            },
            None => pre,
        }
    }
}

/// Takes an article entry whose link has host `host` (`None` where the link
/// has no host): an entry without a link or a title is skipped and claims
/// nothing. Otherwise its link is claimed, and the job is returned where the
/// claim won and the link has a host.
pub fn take_article_on(e: &FeedEntry, host: Option<String>, seen: &mut SeenSet) -> (r: Option<ArticleJob>)
    ensures
        usable_link(e@) is None ==> r is None && final(seen)@ == old(seen)@,
        usable_link(e@) matches Some(l) ==> {
            &&& final(seen)@ == old(seen)@.insert(l)
            &&& r is Some <==> (!old(seen)@.contains(l) && host is Some)
            &&& r matches Some(j) ==> j.url@ == l && Some(j.title@) == e@.1 && Some(j.host@) == opt_view(host)
        },
{
    match (&e.link, &e.title) {
        (Some(l), Some(t)) => {
            if seen.claim(l.as_str()) {
                match host {
                    Some(h) => Some(ArticleJob { url: l.clone(), title: t.clone(), host: h }),
                    None => None,
                }
            } else {
                None
            }
        },
        _ => None,
    }
}

/// Takes an article entry as `take_article_on` does: the link is claimed
/// first, and the host is then taken from the link of a claim that won.
pub fn take_article(e: &FeedEntry, seen: &mut SeenSet) -> (r: Option<ArticleJob>)
    ensures
        usable_link(e@) is None ==> r is None && final(seen)@ == old(seen)@,
        usable_link(e@) matches Some(l) ==> {
            &&& final(seen)@ == old(seen)@.insert(l)
            &&& r is Some <==> (!old(seen)@.contains(l) && url_host(l) is Some)
            &&& r matches Some(j) ==> j.url@ == l && Some(j.title@) == e@.1 && Some(j.host@) == url_host(l)
        },
{
    match (&e.link, &e.title) {
        (Some(l), Some(t)) => {
            if seen.claim(l.as_str()) {
                match host_of(l.as_str()) {
                    Some(h) => Some(ArticleJob { url: l.clone(), title: t.clone(), host: h }),
                    None => None,
                }
            } else {
                None
            }
        },
        _ => None,
    }
}

/// The articles of a feed to fetch, in feed order: every entry with a link and
/// a title claims its link in `seen`, and is fetched where that claim won and
/// the link has a host. Each job carries the title of the entry that won.
pub fn plan_articles(entries: &Vec<FeedEntry>, seen: &mut SeenSet) -> (r: Vec<ArticleJob>)
    ensures
        final(seen)@ == seen_after(|e: EntryView| usable_link(e), old(seen)@, entries_view(entries@)),
        r@.map_values(|j: ArticleJob| (j.url@, j.title@)) == taken_articles(old(seen)@, entries_view(entries@)),
        forall|i: int| 0 <= i < r@.len() ==> Some(#[trigger] r@[i].host@) == url_host(r@[i].url@),
{
    let ghost s0 = seen@;
    let ghost es = entries_view(entries@);
    let ghost f = |e: EntryView| usable_link(e);
    let mut out: Vec<ArticleJob> = Vec::new();
    let mut i: usize = 0;
    while i < entries.len()
        invariant
            i <= entries@.len(),
            es == entries_view(entries@),
            f == (|e: EntryView| usable_link(e)),
            seen@ == seen_after(f, s0, es.subrange(0, i as int)),
            out@.map_values(|j: ArticleJob| (j.url@, j.title@)) == taken_articles(s0, es.subrange(0, i as int)),
            forall|m: int| 0 <= m < out@.len() ==> Some(#[trigger] out@[m].host@) == url_host(out@[m].url@),
        decreases entries@.len() - i,
    {
        let ghost pre = es.subrange(0, i as int);
        let ghost outv = out@.map_values(|j: ArticleJob| (j.url@, j.title@));
        assert(es.subrange(0, i + 1).drop_last() =~= pre);
        assert(es.subrange(0, i + 1).last() == entries@[i as int]@);
        match take_article(&entries[i], seen) {
            Some(j) => {
                out.push(j);
                assert(out@.map_values(|j: ArticleJob| (j.url@, j.title@)) =~= outv.push(
                    (out@[out@.len() - 1].url@, out@[out@.len() - 1].title@),
                ));
            },
            None => {
                assert(out@.map_values(|j: ArticleJob| (j.url@, j.title@)) =~= outv);
            },
        }
        i = i + 1;
    }
    assert(es.subrange(0, entries@.len() as int) =~= es);
    out
}

/// An entry without a link or a title changes nothing: dropping it from a feed
/// list or a feed leaves the claimed set, the feeds fetched and the articles
/// fetched as they were, so the rest of the crawl goes on without it.
pub proof fn lemma_skipped_entry_ignored(s: Set<Seq<char>>, es: Seq<EntryView>, k: int)
    requires
        0 <= k < es.len(),
        usable_link(es[k]) is None,
    ensures
        seen_after(|e: EntryView| usable_link(e), s, es) == seen_after(|e: EntryView| usable_link(e), s, es.remove(k)),
        taken_links(|e: EntryView| usable_link(e), s, es) == taken_links(|e: EntryView| usable_link(e), s, es.remove(k)),
        taken_articles(s, es) == taken_articles(s, es.remove(k)),
    decreases es.len(),
{
    if k == es.len() - 1 {
        assert(es.remove(k) =~= es.drop_last());
    } else {
        lemma_skipped_entry_ignored(s, es.drop_last(), k);
        assert(es.remove(k).drop_last() =~= es.drop_last().remove(k));
        assert(es.remove(k).last() == es.last());
    }
}

} // verus!
