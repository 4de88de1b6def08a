use rss_crawl::cvar::CvarLock;
use rss_crawl::feed::{plan_articles, plan_feeds, read_entries, take_article, take_article_on, take_entry, CrawlError, FeedEntry};
use rss_crawl::index::ArticleIndex;
use rss_crawl::limiter::{article_dimensions, feed_dimensions, Dimension, ThreadCount};
use rss_crawl::pool::{PoolError, PoolState};
use rss_crawl::seen::SeenSet;

fn entry(link: Option<&str>, title: Option<&str>) -> FeedEntry {
    FeedEntry::new(link.map(|s| s.to_string()), title.map(|s| s.to_string()))
}

const FEED_LIST: &str = "<?xml version=\"1.0\"?><rss version=\"2.0\"><channel><title>list</title>\
<link>http://example.com/</link><description>d</description>\
<item><title>One</title><link>http://a.example/feed.xml</link></item>\
<item><title>NoLink</title></item>\
<item><title>Three</title><link>http://c.example/feed.xml</link></item>\
</channel></rss>";

#[test]
fn claim_is_true_once_only() {
    let mut s = SeenSet::new();
    assert!(!s.contains("http://a/"));
    assert!(s.claim("http://a/"));
    assert!(!s.claim("http://a/"));
    assert!(!s.claim("http://a/"));
    assert!(s.contains("http://a/"));
    assert!(s.claim("http://b/"));
}

#[test]
fn many_claims_of_one_url_win_once() {
    let mut s = SeenSet::new();
    let wins = (0..16).filter(|_| s.claim("http://same/")).count();
    assert_eq!(wins, 1);
}

#[test]
fn duplicate_feed_is_dispatched_once() {
    let entries = vec![
        entry(Some("http://a/feed"), Some("A")),
        entry(Some("http://b/feed"), Some("B")),
        entry(Some("http://a/feed"), Some("A again")),
    ];
    let mut s = SeenSet::new();
    let plan = plan_feeds(&entries, &mut s);
    assert_eq!(plan, vec!["http://a/feed".to_string(), "http://b/feed".to_string()]);
}

#[test]
fn entry_without_link_is_skipped() {
    let entries = vec![
        entry(Some("http://a/feed"), Some("A")),
        entry(None, Some("no link")),
        entry(Some("http://c/feed"), None),
        entry(Some("http://d/feed"), Some("D")),
    ];
    let mut s = SeenSet::new();
    let plan = plan_feeds(&entries, &mut s);
    assert_eq!(plan, vec!["http://a/feed".to_string(), "http://d/feed".to_string()]);
    assert!(!s.contains("http://c/feed"));
}

#[test]
fn take_entry_claims_link() {
    let mut s = SeenSet::new();
    let e = entry(Some("http://x/"), Some("X"));
    assert_eq!(take_entry(&e, &mut s), Some("http://x/".to_string()));
    assert_eq!(take_entry(&e, &mut s), None);
}

#[test]
fn feed_list_parses_into_entries() {
    let v = read_entries(FEED_LIST.as_bytes()).unwrap();
    assert_eq!(v.len(), 3);
    assert_eq!(v[0].link.as_deref(), Some("http://a.example/feed.xml"));
    assert_eq!(v[0].title.as_deref(), Some("One"));
    assert_eq!(v[1].link, None);
    assert_eq!(v[2].title.as_deref(), Some("Three"));
    let mut s = SeenSet::new();
    let plan = plan_feeds(&v, &mut s);
    assert_eq!(plan.len(), 2);
}

#[test]
fn unparsable_feed_list_is_an_error() {
    assert!(matches!(read_entries(b"not a feed"), Err(CrawlError::Parse)));
}

#[test]
fn article_host_comes_from_its_url() {
    let mut s = SeenSet::new();
    let e = entry(Some("https://news.example.org/a/1"), Some("T"));
    let job = take_article(&e, &mut s).unwrap();
    assert_eq!(job.host, "news.example.org");
    assert_eq!(job.url, "https://news.example.org/a/1");
    assert_eq!(job.title, "T");
    assert!(take_article(&e, &mut s).is_none());
}

#[test]
fn article_without_host_is_skipped() {
    let mut s = SeenSet::new();
    let e = entry(Some("not a url"), Some("T"));
    assert!(take_article(&e, &mut s).is_none());
    assert!(s.contains("not a url"));
    assert!(take_article_on(&e, Some("h".to_string()), &mut s).is_none());
    let mut fresh = SeenSet::new();
    let job = take_article_on(&e, Some("h".to_string()), &mut fresh).unwrap();
    assert_eq!(job.host, "h");
    assert!(take_article_on(&entry(Some("u"), Some("T")), None, &mut fresh).is_none());
    assert!(fresh.contains("u"));
}

#[test]
fn site_cap_bounds_one_host() {
    let mut c = ThreadCount::new(5, 2, 18);
    let site = Dimension::Site("h.example".to_string());
    let mut high = 0;
    let mut running = 0;
    for _ in 0..5 {
        if c.try_acquire(&site) {
            running += 1;
        }
        high = std::cmp::max(high, c.live_count(&site));
    }
    assert_eq!(running, 2);
    assert_eq!(high, 2);
    c.release(&site);
    assert_eq!(c.live_count(&site), 1);
    assert!(c.try_acquire(&site));
    assert!(!c.try_acquire(&site));
    let other = Dimension::Site("other.example".to_string());
    assert!(c.try_acquire(&other));
    assert_eq!(c.live_count(&other), 1);
    assert_eq!(c.live_count(&Dimension::Total), 0);
}

#[test]
fn feed_and_total_caps() {
    let mut c = ThreadCount::new(2, 10, 3);
    assert!(c.try_acquire(&Dimension::Feed));
    assert!(c.try_acquire(&Dimension::Feed));
    assert!(!c.try_acquire(&Dimension::Feed));
    for _ in 0..3 {
        assert!(c.try_acquire(&Dimension::Total));
    }
    assert!(!c.try_acquire(&Dimension::Total));
    c.release(&Dimension::Total);
    assert!(c.try_acquire(&Dimension::Total));
    assert_eq!(c.live_count(&Dimension::Feed), 2);
}

#[test]
fn default_limits() {
    let mut c = ThreadCount::with_default_limits();
    let n = (0..30).filter(|_| c.try_acquire(&Dimension::Total)).count();
    assert_eq!(n, 18);
    let f = (0..30).filter(|_| c.try_acquire(&Dimension::Feed)).count();
    assert_eq!(f, 5);
    let site = Dimension::Site("s".to_string());
    let k = (0..30).filter(|_| c.try_acquire(&site)).count();
    assert_eq!(k, 10);
}

#[test]
fn acquisition_order_is_scoped_first() {
    let f = feed_dimensions();
    assert!(matches!(f[0], Dimension::Feed));
    assert!(matches!(f[1], Dimension::Total));
    let a = article_dimensions("h");
    assert!(matches!(&a[0], Dimension::Site(h) if h == "h"));
    assert!(matches!(a[1], Dimension::Total));
}

#[test]
fn index_completes_after_every_fetch_ends() {
    let mut ix = ArticleIndex::new();
    assert!(ix.is_complete());
    ix.expect();
    ix.expect();
    ix.expect();
    assert!(!ix.is_complete());
    let mut s = SeenSet::new();
    let j1 = take_article(&entry(Some("http://h.example/1"), Some("one")), &mut s).unwrap();
    let j2 = take_article(&entry(Some("http://h.example/2"), Some("two")), &mut s).unwrap();
    ix.finish(j1, Some(vec!["a".to_string(), "b".to_string()]));
    ix.finish(j2, None);
    assert!(!ix.is_complete());
    ix.add("g.example".to_string(), "three".to_string(), "http://g.example/3".to_string(), vec![]);
    assert!(ix.is_complete());
    assert_eq!(ix.len(), 2);
    assert_eq!(ix.failures(), 1);
    assert_eq!(ix.count_for("h.example"), 1);
    assert_eq!(ix.count_for("g.example"), 1);
    assert_eq!(ix.count_for("x"), 0);
    let e = ix.entry(0);
    assert_eq!(e.site, "h.example");
    assert_eq!(e.title, "one");
    assert_eq!(e.url, "http://h.example/1");
    assert_eq!(e.words, vec!["a".to_string(), "b".to_string()]);
}

#[test]
fn submit_after_shutdown_is_refused() {
    let mut p = PoolState::new(3);
    assert_eq!(p.submit(), Ok(()));
    assert_eq!(p.begin_shutdown(), Ok(3));
    assert_eq!(p.submit(), Err(PoolError::ShutDown));
    assert_eq!(p.begin_shutdown(), Err(PoolError::AlreadyShutDown));
    assert!(!p.is_drained());
    p.worker_joined();
    p.worker_joined();
    assert!(!p.is_drained());
    p.worker_joined();
    assert!(p.is_drained());
    assert_eq!(p.worker_count(), 3);
}

#[test]
fn cvar_lock_holds_its_data() {
    let l = CvarLock::new(ThreadCount::new(1, 1, 2));
    let mut g = l.mutex.lock().unwrap();
    assert!(g.try_acquire(&Dimension::Feed));
    assert!(!g.try_acquire(&Dimension::Feed));
    drop(g);
    l.condvar.notify_all();
}

#[test]
fn feed_articles_are_planned_once_each() {
    let entries = vec![
        entry(Some("http://h.example/1"), Some("one")),
        entry(Some("no host"), Some("bad")),
        entry(None, Some("nothing")),
        entry(Some("http://g.example/2"), Some("two")),
        entry(Some("http://h.example/1"), Some("one again")),
    ];
    let mut s = SeenSet::new();
    assert!(s.claim("http://g.example/2"));
    let jobs = plan_articles(&entries, &mut s);
    assert_eq!(jobs.len(), 1);
    assert_eq!(jobs[0].url, "http://h.example/1");
    assert_eq!(jobs[0].title, "one");
    assert_eq!(jobs[0].host, "h.example");
    assert!(s.contains("no host"));
    assert!(plan_articles(&entries, &mut s).is_empty());
}

#[test]
fn article_title_is_that_of_the_winning_entry() {
    let entries = vec![
        entry(Some("http://h.example/x"), Some("A")),
        entry(Some("http://h.example/x"), Some("B")),
    ];
    let mut s = SeenSet::new();
    let jobs = plan_articles(&entries, &mut s);
    assert_eq!(jobs.len(), 1);
    assert_eq!(jobs[0].title, "A");
}
