//! Bounded concurrency along three dimensions: all in-flight work, feed-level
//! work, and article work per destination host.
use vstd::prelude::*;

verus! {

/// Default cap on simultaneously active feed fetches.
pub const MAX_THREADS_FEEDS: u32 = 5;
/// Default cap on simultaneously active article fetches per host.
pub const MAX_THREADS_SITES: u32 = 10;
/// Default cap on all in-flight work.
pub const MAX_THREADS_TOTAL: u32 = 18;

/// An axis of bounded concurrency; a site is keyed by its host name.
pub enum Dimension {
    Total,
    Feed,
    Site(String),
}

/// The mathematical key of a counter.
pub enum Slot {
    Total,
    Feed,
    Site(Seq<char>),
}

impl Dimension {
    pub open spec fn view(&self) -> Slot {
        match self {
            Dimension::Total => Slot::Total,
            Dimension::Feed => Slot::Feed,
            Dimension::Site(h) => Slot::Site(h@),
        }
    }
}

/// Live counts of running work, each kept at or below its dimension's cap.
/// Per-host counters are created on first use and never removed.
pub struct ThreadCount {
    max_feeds: u32,
    max_sites: u32,
    max_total: u32,
    feeds: u32,
    total: u32,
    hosts: Vec<String>,
    sites: Vec<u32>,
}

impl ThreadCount {
    /// The index of host `h` among the known hosts, if any.
    pub closed spec fn host_index(&self, h: Seq<char>) -> int {
        choose|i: int| 0 <= i < self.hosts@.len() && self.hosts@[i]@ == h
    }

    /// The hosts that have a counter.
    pub closed spec fn hosts(&self) -> Set<Seq<char>> {
        Set::new(|h: Seq<char>| exists|i: int| 0 <= i < self.hosts@.len() && #[trigger] self.hosts@[i]@ == h)
    }

    /// The live count of a counter; a host without a counter has none running.
    pub closed spec fn live(&self, k: Slot) -> nat {
        match k {
            Slot::Total => self.total as nat,
            Slot::Feed => self.feeds as nat,
            Slot::Site(h) => if self.hosts().contains(h) {
                self.sites@[self.host_index(h)] as nat
            } else {
                0
            },
        }
    }

    /// The cap of a counter.
    pub closed spec fn max(&self, k: Slot) -> nat {
        match k {
            Slot::Total => self.max_total as nat,
            Slot::Feed => self.max_feeds as nat,
            Slot::Site(_) => self.max_sites as nat,
        }
    }

    /// Every counter lies within its cap, and each host has one counter.
    pub closed spec fn wf(&self) -> bool {
        &&& self.hosts@.len() == self.sites@.len()
        &&& self.feeds <= self.max_feeds
        &&& self.total <= self.max_total
        &&& forall|i: int| 0 <= i < self.sites@.len() ==> #[trigger] self.sites@[i] <= self.max_sites
        &&& forall|i: int, j: int|
            0 <= i < j < self.hosts@.len() ==> #[trigger] self.hosts@[i]@ != #[trigger] self.hosts@[j]@
    }

    /// The caps are those given, every count is zero, and no host is known.
    pub open spec fn fresh(&self, max_feeds: nat, max_sites: nat, max_total: nat) -> bool {
        &&& self.wf()
        &&& self.max(Slot::Feed) == max_feeds
        &&& self.max(Slot::Total) == max_total
        &&& forall|h: Seq<char>| #[trigger] self.max(Slot::Site(h)) == max_sites
        &&& forall|k: Slot| #[trigger] self.live(k) == 0
        &&& self.hosts() == Set::<Seq<char>>::empty()
    }

    /// `self` and `other` have the same caps.
    pub open spec fn same_caps(&self, other: &ThreadCount) -> bool {
        forall|k: Slot| #[trigger] self.max(k) == other.max(k)
    }

    /// Counters with the given caps, all idle. The total cap exceeds the feed
    /// cap, so that feeds holding capacity never starve their own articles.
    pub fn new(max_feeds: u32, max_sites: u32, max_total: u32) -> (r: ThreadCount)
        requires
            0 < max_feeds < max_total,
            0 < max_sites,
        ensures
            r.fresh(max_feeds as nat, max_sites as nat, max_total as nat),
    {
        let r = ThreadCount {
            max_feeds,
            max_sites,
            max_total,
            feeds: 0,
            total: 0,
            hosts: Vec::new(),
            sites: Vec::new(),
        };
        assert(r.hosts() =~= Set::<Seq<char>>::empty());
        r
    }

    /// Counters with the default caps.
    pub fn with_default_limits() -> (r: ThreadCount)
        ensures
            r.fresh(MAX_THREADS_FEEDS as nat, MAX_THREADS_SITES as nat, MAX_THREADS_TOTAL as nat),
    {
        ThreadCount::new(MAX_THREADS_FEEDS, MAX_THREADS_SITES, MAX_THREADS_TOTAL)
    }

    /// The position of host `h`'s counter, if it has one.
    fn find_host(&self, h: &String) -> (r: Option<usize>)
        requires
            self.wf(),
        ensures
            r is None ==> !self.hosts().contains(h@),
            r matches Some(i) ==> i < self.hosts@.len() && self.hosts@[i as int]@ == h@
                && self.host_index(h@) == i,
    {
        let mut i: usize = 0;
        while i < self.hosts.len()
            invariant
                self.wf(),
                i <= self.hosts@.len(),
                forall|j: int| 0 <= j < i ==> self.hosts@[j]@ != h@,
            decreases self.hosts@.len() - i,
        {
            if self.hosts[i] == *h {
                assert(self.hosts().contains(h@));
                let ghost k = self.host_index(h@);
                assert(self.hosts@[k]@ == h@);
                assert(k == i as int);
                return Some(i);
            }
            i = i + 1;
        }
        None
    }

    /// A host found at position `i` is known, and `i` is its index.
    proof fn lemma_index_at(&self, h: Seq<char>, i: int)
        requires
            self.wf(),
            0 <= i < self.hosts@.len(),
            self.hosts@[i]@ == h,
        ensures
            self.hosts().contains(h),
            self.host_index(h) == i,
    {
        assert(self.hosts().contains(h));
        let k = self.host_index(h);
        assert(self.hosts@[k]@ == h);
        if k < i {
            assert(self.hosts@[k]@ != self.hosts@[i]@);
        } else if i < k {
            assert(self.hosts@[i]@ != self.hosts@[k]@);
        }
    }

    /// Where only the counter at position `i` changed, every other counter
    /// keeps its live count.
    proof fn lemma_other_live(&self, before: &ThreadCount, i: int)
        requires
            before.wf(),
            self.wf(),
            0 <= i < self.hosts@.len(),
            self.hosts@ == before.hosts@,
            self.total == before.total,
            self.feeds == before.feeds,
            forall|j: int| 0 <= j < self.sites@.len() && j != i ==> self.sites@[j] == before.sites@[j],
        ensures
            self.hosts() == before.hosts(),
            forall|k: Slot| k != Slot::Site(self.hosts@[i]@) ==> #[trigger] self.live(k) == before.live(k),
    {
        assert(self.hosts() =~= before.hosts());
        assert forall|k: Slot| k != Slot::Site(self.hosts@[i]@) implies #[trigger] self.live(k) == before.live(k) by {
            if let Slot::Site(h) = k {
                if self.hosts().contains(h) {
                    let j = self.host_index(h);
                    assert(self.hosts@[j]@ == h);
                    assert(j != i);
                }
            }
        }
    }

    /// The position of host `h`'s counter, created idle where `h` had none.
    fn slot_of(&mut self, h: &String) -> (r: usize)
        requires
            old(self).wf(),
        ensures
            final(self).wf(),
            final(self).max_feeds == old(self).max_feeds,
            final(self).max_sites == old(self).max_sites,
            final(self).max_total == old(self).max_total,
            r < final(self).hosts@.len(),
            final(self).hosts@[r as int]@ == h@,
            final(self).host_index(h@) == r,
            final(self).hosts() == old(self).hosts().insert(h@),
            final(self).total == old(self).total,
            final(self).feeds == old(self).feeds,
            forall|k: Slot| #[trigger] final(self).live(k) == old(self).live(k),
    {
        match self.find_host(h) {
            Some(i) => {
                assert(self.hosts().insert(h@) =~= self.hosts());
                i
            },
            None => {
                let ghost before = *self;
                self.hosts.push(h.clone());
                self.sites.push(0);
                let i = self.hosts.len() - 1;
                proof {
                    assert forall|a: int, b: int|
                        0 <= a < b < self.hosts@.len() implies #[trigger] self.hosts@[a]@ != #[trigger] self.hosts@[b]@ by {
                        if b == i as int {
                            assert(before.hosts@[a]@ == self.hosts@[a]@);
                        } else {
                            assert(before.hosts@[a]@ == self.hosts@[a]@);
                            assert(before.hosts@[b]@ == self.hosts@[b]@);
                        }
                    }
                    self.lemma_index_at(h@, i as int);
                    assert forall|x: Seq<char>| self.hosts().contains(x) == before.hosts().insert(h@).contains(x) by {
                        if before.hosts().contains(x) {
                            let j = choose|j: int| 0 <= j < before.hosts@.len() && #[trigger] before.hosts@[j]@ == x;
                            assert(self.hosts@[j]@ == x);
                        }
                        if self.hosts().contains(x) && x != h@ {
                            let j = choose|j: int| 0 <= j < self.hosts@.len() && #[trigger] self.hosts@[j]@ == x;
                            assert(j != i);
                            assert(before.hosts@[j]@ == x);
                        }
                    }
                    assert(self.hosts() =~= before.hosts().insert(h@));
                    assert forall|k: Slot| #[trigger] self.live(k) == before.live(k) by {
                        if let Slot::Site(x) = k {
                            if x == h@ {
                            } else if before.hosts().contains(x) {
                                let j = before.host_index(x);
                                assert(before.hosts@[j]@ == x);
                                assert(self.hosts@[j]@ == x);
                                self.lemma_index_at(x, j);
                            }
                        }
                    }
                }
                i
            },
        }
    }

    /// Takes one unit of capacity along `d` if its counter is below its cap,
    /// creating the host's counter first where `d` names a new host. Returns
    /// whether it did; no other counter moves.
    pub fn try_acquire(&mut self, d: &Dimension) -> (r: bool)
        requires
            old(self).wf(),
        ensures
            final(self).wf(),
            final(self).same_caps(old(self)),
            r == (old(self).live(d@) < old(self).max(d@)),
            final(self).live(d@) == old(self).live(d@) + (if r { 1nat } else { 0nat }),
            forall|k: Slot| k != d@ ==> #[trigger] final(self).live(k) == old(self).live(k),
            d@ matches Slot::Site(h) ==> final(self).hosts() == old(self).hosts().insert(h),
            !(d@ is Site) ==> final(self).hosts() == old(self).hosts(),
    {
        let r = self.acquire_step(d);
        assert forall|k: Slot| #[trigger] self.max(k) == old(self).max(k) by {}
        r
    }

    fn acquire_step(&mut self, d: &Dimension) -> (r: bool)
        requires
            old(self).wf(),
        ensures
            final(self).wf(),
            final(self).max_feeds == old(self).max_feeds,
            final(self).max_sites == old(self).max_sites,
            final(self).max_total == old(self).max_total,
            r == (old(self).live(d@) < old(self).max(d@)),
            final(self).live(d@) == old(self).live(d@) + (if r { 1nat } else { 0nat }),
            forall|k: Slot| k != d@ ==> #[trigger] final(self).live(k) == old(self).live(k),
            d@ matches Slot::Site(h) ==> final(self).hosts() == old(self).hosts().insert(h),
            !(d@ is Site) ==> final(self).hosts() == old(self).hosts(),
    {
        match d {
            Dimension::Total => {
                if self.total < self.max_total {
                    self.total = self.total + 1;
                    true
                } else {
                    false
                }
            },
            Dimension::Feed => {
                if self.feeds < self.max_feeds {
                    self.feeds = self.feeds + 1;
                    true
                } else {
                    false
                }
            },
            Dimension::Site(h) => {
                let i = self.slot_of(h);
                let ghost mid = *self;
                let c = self.sites[i];
                assert(mid.hosts().contains(h@));
                assert(old(self).live(d@) == mid.live(Slot::Site(h@)));
                if c < self.max_sites {
                    self.sites.set(i, c + 1);
                    proof {
                        self.lemma_other_live(&mid, i as int);
                        self.lemma_index_at(h@, i as int);
                        assert(self.live(d@) == c + 1);
                    }
                    true
                } else {
                    false
                }
            },
        }
    }

    /// Gives back one unit of capacity along `d`; no other counter moves. The
    /// caller wakes every waiter on the counters afterwards.
    pub fn release(&mut self, d: &Dimension)
        requires
            old(self).wf(),
            old(self).live(d@) > 0,
        ensures
            final(self).wf(),
            final(self).same_caps(old(self)),
            final(self).live(d@) + 1 == old(self).live(d@),
            forall|k: Slot| k != d@ ==> #[trigger] final(self).live(k) == old(self).live(k),
            final(self).hosts() == old(self).hosts(),
    {
        let ghost before = *self;
        match d {
            Dimension::Total => {
                self.total = self.total - 1;
            },
            Dimension::Feed => {
                self.feeds = self.feeds - 1;
            },
            Dimension::Site(h) => {
                match self.find_host(h) {
                    Some(i) => {
                        let c = self.sites[i];
                        self.sites.set(i, c - 1);
                        proof {
                            self.lemma_other_live(&before, i as int);
                            self.lemma_index_at(h@, i as int);
                        }
                    },
                    None => {},
                }
            },
        }
        assert(self.hosts() =~= before.hosts());
        assert forall|k: Slot| #[trigger] self.max(k) == before.max(k) by {}
    }

    /// The live count of `d`.
    pub fn live_count(&self, d: &Dimension) -> (r: u32)
        requires
            self.wf(),
        ensures
            r == self.live(d@),
    {
        match d {
            Dimension::Total => self.total,
            Dimension::Feed => self.feeds,
            Dimension::Site(h) => match self.find_host(h) {
                Some(i) => self.sites[i],
                None => 0,
            },
        }
    }
}

/// The counters a feed fetch holds while it runs, in the order it takes them:
/// the scoped dimension before the total, so that no two tasks wait on each other.
pub fn feed_dimensions() -> (r: Vec<Dimension>)
    ensures
        r@.len() == 2,
        r@[0]@ == Slot::Feed,
        r@[1]@ == Slot::Total,
{
    vec![Dimension::Feed, Dimension::Total]
}

/// The counters an article fetch on `host` holds while it runs, in the order
/// it takes them: the host's counter before the total.
pub fn article_dimensions(host: &str) -> (r: Vec<Dimension>)
    ensures
        r@.len() == 2,
        r@[0]@ == Slot::Site(host@),
        r@[1]@ == Slot::Total,
{
    vec![Dimension::Site(host.to_owned()), Dimension::Total]
}

/// Every counter of well-formed counts, that is of every state that `new`,
/// `try_acquire` and `release` can reach, lies within its cap.
pub proof fn lemma_capacity_invariant(c: &ThreadCount, k: Slot)
    requires
        c.wf(),
    ensures
        c.live(k) <= c.max(k),
{
    if let Slot::Site(h) = k {
        if c.hosts().contains(h) {
            let i = c.host_index(h);
            assert(c.hosts@[i]@ == h);
            assert(c.sites@[i] <= c.max_sites);
        }
    }
}

} // verus!
