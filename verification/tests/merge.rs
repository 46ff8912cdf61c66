use rsspal::feed::atom::AtomFeed;
use rsspal::feed::atom::Entry;
use rsspal::feed::rss::RssChannel;
use rsspal::feed::rss::RssFeed;
use rsspal::feed::rss::RssItem;
use rsspal::feed::Feed;
use rsspal::update::diff_feed;
use rsspal::update::merge_feed;
use rsspal::update::merge_rss_feed;
use rsspal::update::MergeError;
use rsspal::update::MergeOutcome;

fn item(link: &str) -> RssItem {
    RssItem {
        title: None,
        link: link.to_string(),
        description: String::new(),
        date: None,
        author: None,
        category: Vec::new(),
        comments: None,
        enclosure: None,
        guid: None,
        source: None,
        read: false,
    }
}

fn rss_feed(title: &str, url: &str, items: Vec<RssItem>) -> RssFeed {
    RssFeed {
        channel: RssChannel {
            title: title.to_string(),
            description: String::new(),
            link: String::new(),
            url: url.to_string(),
            copyright: None,
            managing_editor: None,
            web_master: None,
            pub_date: None,
            category: Vec::new(),
            docs: None,
            ttl: None,
            image: None,
            skip_hours: Vec::new(),
            skip_days: Vec::new(),
            item: items,
            last_updated: None,
            discord_category: None,
        },
    }
}

fn atom_feed(title: &str, url: &str, entries: Vec<Entry>) -> AtomFeed {
    AtomFeed {
        id: String::new(),
        title: title.to_string(),
        updated: None,
        author: None,
        link: Vec::new(),
        category: Vec::new(),
        icon: None,
        logo: None,
        rights: None,
        subtitle: None,
        entry: entries,
        ttl: None,
        skip_days: Vec::new(),
        skip_hours: Vec::new(),
        last_updated: None,
        url: url.to_string(),
        discord_category: None,
    }
}

#[test]
fn diff_appends_only_new_items() {
    // Stored identities {A, B}, fetched {A, B, C}: exactly C is new, and the
    // stored read marks survive.
    let mut a = item("http://x/a");
    a.read = true;
    let b = item("http://x/b");
    let mut stored = rss_feed("t", "http://x/feed", vec![a, b]);
    let fetched = rss_feed("t", "http://x/feed", vec![
        item("http://x/a"),
        item("http://x/b"),
        item("http://x/c"),
    ]);
    let new_start = merge_rss_feed(&mut stored, fetched, 42);
    assert_eq!(new_start, 2);
    assert_eq!(stored.channel.item.len(), 3);
    assert!(stored.channel.item[0].read);
    assert!(!stored.channel.item[1].read);
    assert_eq!(stored.channel.item[2].link, "http://x/c");
    assert_eq!(stored.channel.last_updated, Some(42));
}

#[test]
fn merging_twice_adds_nothing() {
    let mut stored = rss_feed("t", "http://x/feed", vec![item("http://x/a")]);
    let fetched = rss_feed("t", "http://x/feed", vec![item("http://x/a"), item("http://x/b")]);
    merge_rss_feed(&mut stored, fetched.clone(), 1);
    let after_once = stored.channel.item.clone();
    merge_rss_feed(&mut stored, fetched, 2);
    assert_eq!(stored.channel.item, after_once);
    assert_eq!(stored.channel.last_updated, Some(2));
}

#[test]
fn merge_replaces_metadata_but_not_title() {
    let mut stored = rss_feed("Stored Title", "http://x/feed", vec![]);
    stored.channel.discord_category = Some("cat".to_string());
    let mut fetched = rss_feed("Fetched Title", "http://other/url", vec![]);
    fetched.channel.description = "fresh description".to_string();
    fetched.channel.ttl = Some(15);
    merge_rss_feed(&mut stored, fetched, 7);
    assert_eq!(stored.channel.title, "Stored Title");
    assert_eq!(stored.channel.url, "http://x/feed");
    assert_eq!(stored.channel.discord_category, Some("cat".to_string()));
    assert_eq!(stored.channel.description, "fresh description");
    assert_eq!(stored.channel.ttl, Some(15));
}

#[test]
fn variant_mismatch_is_rejected() {
    let mut stored = Feed::Rss(rss_feed("t", "http://x/feed", vec![]));
    let fetched = Feed::Atom(atom_feed("t", "http://x/feed", vec![]));
    let before = stored.clone();
    let r = merge_feed(&mut stored, fetched, 3);
    assert_eq!(r, Err(MergeError::VariantMismatch));
    assert_eq!(stored, before);
}

#[test]
fn collection_diff_finds_feed_by_url() {
    let mut feeds = vec![
        Feed::Rss(rss_feed("one", "http://one/feed", vec![])),
        Feed::Rss(rss_feed("two", "http://two/feed", vec![item("http://two/a")])),
    ];
    let update = Feed::Rss(rss_feed("two", "http://two/feed", vec![
        item("http://two/a"),
        item("http://two/b"),
    ]));
    match diff_feed(&mut feeds, update, 9) {
        MergeOutcome::Merged { feed, new_start } => {
            assert_eq!(feed, 1);
            assert_eq!(new_start, 1);
        }
        other => panic!("unexpected outcome {:?}", other),
    }
    match &feeds[1] {
        Feed::Rss(f) => {
            assert_eq!(f.channel.item.len(), 2);
            assert_eq!(f.channel.last_updated, Some(9));
        }
        _ => panic!("feed changed kind"),
    }
}

#[test]
fn collection_diff_unknown_url_changes_nothing() {
    let mut feeds = vec![Feed::Rss(rss_feed("one", "http://one/feed", vec![]))];
    let before = feeds.clone();
    let update = Feed::Rss(rss_feed("x", "http://nowhere/feed", vec![]));
    assert_eq!(diff_feed(&mut feeds, update, 9), MergeOutcome::NotFound);
    assert_eq!(feeds, before);
}

#[test]
fn collection_diff_reports_kind_mismatch() {
    let mut feeds = vec![Feed::Rss(rss_feed("one", "http://one/feed", vec![]))];
    let before = feeds.clone();
    let update = Feed::Atom(atom_feed("one", "http://one/feed", vec![]));
    assert_eq!(diff_feed(&mut feeds, update, 9), MergeOutcome::Mismatch { feed: 0 });
    assert_eq!(feeds, before);
}

#[test]
fn atom_merge_deduplicates_by_id() {
    let mut e1 = Entry {
        id: "urn:1".to_string(),
        title: "one".to_string(),
        link: Vec::new(),
        updated: None,
        author: None,
        contributer: None,
        published: None,
        rights: None,
        source: None,
        summary: None,
        read: false,
        enclosure: None,
        comments: None,
    };
    let mut e2 = e1.clone();
    e2.id = "urn:2".to_string();
    e1.read = true;
    let mut stored = Feed::Atom(atom_feed("t", "http://a/feed", vec![e1.clone()]));
    let fetched = Feed::Atom(atom_feed("t", "http://a/feed", vec![e1.clone(), e2]));
    let r = merge_feed(&mut stored, fetched, 5);
    assert!(r.is_ok());
    match &stored {
        Feed::Atom(a) => {
            assert_eq!(a.entry.len(), 2);
            assert!(a.entry[0].read);
            assert_eq!(a.entry[1].id, "urn:2");
            assert_eq!(a.last_updated, Some(5));
        }
        _ => panic!("feed changed kind"),
    }
}
