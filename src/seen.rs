//! The claim-once set of URLs shared by every task of a crawl.
use vstd::prelude::*;

verus! {

/// The set of URLs that some task has claimed. It only grows.
pub struct SeenSet {
    urls: Vec<String>,
}

/// One claim on a set of claimed URLs: whether it succeeds, and the set after it.
pub open spec fn claim_step(s: Set<Seq<char>>, u: Seq<char>) -> (bool, Set<Seq<char>>) {
    (!s.contains(u), s.insert(u))
}

/// The outcomes of a series of claims made one after another, as a lock
/// around the set orders concurrent callers.
pub open spec fn claim_outcomes(s: Set<Seq<char>>, us: Seq<Seq<char>>) -> Seq<bool>
    decreases us.len(),
{
    if us.len() == 0 {
        Seq::empty()
    } else {
        let (won, next) = claim_step(s, us[0]);
        seq![won] + claim_outcomes(next, us.subrange(1, us.len() as int))
    }
}

/// How many outcomes of a series are `true`.
pub open spec fn count_won(bs: Seq<bool>) -> nat
    decreases bs.len(),
{
    if bs.len() == 0 {
        0
    } else {
        (if bs[0] { 1nat } else { 0nat }) + count_won(bs.subrange(1, bs.len() as int))
    }
}

impl SeenSet {
    /// The URLs claimed so far.
    pub closed spec fn view(&self) -> Set<Seq<char>> {
        Set::new(|x: Seq<char>| exists|i: int| 0 <= i < self.urls@.len() && #[trigger] self.urls@[i]@ == x)
    }

    /// An empty set: nothing claimed yet.
    pub fn new() -> (r: SeenSet)
        ensures
            r@ == Set::<Seq<char>>::empty(),
    {
        let r = SeenSet { urls: Vec::new() };
        assert(r@ =~= Set::<Seq<char>>::empty());
        r
    }

    /// Whether `url` has been claimed.
    pub fn contains(&self, url: &str) -> (r: bool)
        ensures
            r == self@.contains(url@),
    {
        let key = url.to_owned();
        let mut i: usize = 0;
        while i < self.urls.len()
            invariant
                i <= self.urls@.len(),
                key@ == url@,
                forall|j: int| 0 <= j < i ==> self.urls@[j]@ != url@,
            decreases self.urls@.len() - i,
        {
            if self.urls[i] == key {
                return true;
            }
            i = i + 1;
        }
        false
    }

    /// Claims `url`: `true` for the first claim of it, `false` for every later one.
    /// Either way `url` is in the set afterwards.
    pub fn claim(&mut self, url: &str) -> (r: bool)
        ensures
            (r, final(self)@) == claim_step(old(self)@, url@),
    {
        if self.contains(url) {
            assert(self@.insert(url@) =~= self@);
            false
        } else {
            let ghost before = self@;
            self.urls.push(url.to_owned());
            assert forall|x: Seq<char>| self@.contains(x) == before.insert(url@).contains(x) by {
                if x == url@ {
                    let k = self.urls@.len() - 1;
                    assert(self.urls@[k]@ == x);
                }
                if before.contains(x) {
                    let j = choose|j: int| 0 <= j < old(self).urls@.len() && #[trigger] old(self).urls@[j]@ == x;
                    assert(self.urls@[j]@ == x);
                }
            }
            assert(self@ =~= before.insert(url@));
            true
        }
    }
}

/// Claims that find the URL already present never succeed.
proof fn lemma_claims_after_first(s: Set<Seq<char>>, u: Seq<char>, us: Seq<Seq<char>>)
    requires
        s.contains(u),
        forall|i: int| 0 <= i < us.len() ==> us[i] == u,
    ensures
        count_won(claim_outcomes(s, us)) == 0,
    decreases us.len(),
{
    if us.len() > 0 {
        let rest = us.subrange(1, us.len() as int);
        assert(s.insert(u) =~= s);
        lemma_claims_after_first(s, u, rest);
        let bs = claim_outcomes(s, us);
        assert(bs.subrange(1, bs.len() as int) =~= claim_outcomes(s, rest));
    }
}

/// However many tasks claim the same URL, exactly one of them wins when the URL
/// was not claimed before, and none when it was.
pub proof fn lemma_claim_once(s: Set<Seq<char>>, u: Seq<char>, us: Seq<Seq<char>>)
    requires
        us.len() > 0,
        forall|i: int| 0 <= i < us.len() ==> us[i] == u,
    ensures
        count_won(claim_outcomes(s, us)) == (if s.contains(u) { 0nat } else { 1nat }),
{
    if s.contains(u) {
        lemma_claims_after_first(s, u, us);
    } else {
        let rest = us.subrange(1, us.len() as int);
        lemma_claims_after_first(s.insert(u), u, rest);
        let bs = claim_outcomes(s, us);
        assert(bs.subrange(1, bs.len() as int) =~= claim_outcomes(s.insert(u), rest));
    }
}

} // verus!
