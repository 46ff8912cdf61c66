use rsspal::feed::rss::RssChannel;
use rsspal::feed::rss::RssFeed;
use rsspal::feed::rss::RssItem;
use rsspal::feed::Feed;
use rsspal::opml::Body;
use rsspal::opml::Head;
use rsspal::opml::Opml;
use rsspal::opml::Outline;
use rsspal::update::add_feed;
use rsspal::update::plan_poll;
use rsspal::update::process_command;
use rsspal::update::Action;
use rsspal::update::Command;
use rsspal::update::EditArgs;

fn item(link: &str) -> RssItem {
    RssItem {
        title: None,
        link: link.to_string(),
        description: String::new(),
        date: None,
        author: None,
        category: Vec::new(),
        comments: None,
        enclosure: None,
        guid: None,
        source: None,
        read: false,
    }
}

fn feed(title: &str, url: &str, items: Vec<RssItem>) -> Feed {
    Feed::Rss(RssFeed {
        channel: RssChannel {
            title: title.to_string(),
            description: String::new(),
            link: String::new(),
            url: url.to_string(),
            copyright: None,
            managing_editor: None,
            web_master: None,
            pub_date: None,
            category: Vec::new(),
            docs: None,
            ttl: None,
            image: None,
            skip_hours: Vec::new(),
            skip_days: Vec::new(),
            item: items,
            last_updated: None,
            discord_category: None,
        },
    })
}

fn three_feeds() -> Vec<Feed> {
    vec![
        feed("one", "http://one/feed", vec![]),
        feed("two", "http://two/feed", vec![]),
        feed("three", "http://three/feed", vec![]),
    ]
}

#[test]
fn re_adding_existing_url_is_a_no_op() {
    // Three stored feeds; adding a feed whose URL is already present leaves
    // the collection at three entries and tells the caller it exists.
    let mut feeds = three_feeds();
    let before = feeds.clone();
    let dup = feed("renamed two", "http://two/feed", vec![]);
    let actions = process_command(&mut feeds, Command::AddFeed(Box::new(dup)), 0);
    assert_eq!(feeds.len(), 3);
    assert_eq!(feeds, before);
    assert_eq!(actions, vec![Action::ReplyAlreadyExists("http://two/feed".to_string())]);
}

#[test]
fn adding_a_new_feed_appends_and_persists() {
    let mut feeds = three_feeds();
    let new = feed("four", "http://four/feed", vec![item("http://four/a")]);
    let actions = process_command(&mut feeds, Command::AddFeed(Box::new(new.clone())), 0);
    assert_eq!(feeds.len(), 4);
    assert_eq!(feeds[3], new);
    assert_eq!(
        actions,
        vec![
            Action::Reconcile(3),
            Action::PublishItems { feed: 3, start: 0 },
            Action::Persist,
        ]
    );
}

#[test]
fn add_feed_preserves_uniqueness() {
    let mut feeds = three_feeds();
    assert!(!add_feed(&mut feeds, feed("again", "http://one/feed", vec![])));
    assert_eq!(feeds.len(), 3);
    assert!(add_feed(&mut feeds, feed("four", "http://four/feed", vec![])));
    assert_eq!(feeds.len(), 4);
}

#[test]
fn mark_read_sets_flag_and_persists() {
    // A feed whose canonical channel is "tech-news" with one matching item:
    // marking it read flips the flag and asks for a persist; repeating the
    // call is a no-op on the collection.
    let mut feeds = vec![feed("tech-news", "http://t/feed", vec![item("http://x/1")])];
    let actions = process_command(
        &mut feeds,
        Command::MarkRead("tech-news".to_string(), "http://x/1".to_string()),
        0,
    );
    assert_eq!(actions, vec![Action::Persist]);
    match &feeds[0] {
        Feed::Rss(f) => assert!(f.channel.item[0].read),
        _ => panic!("feed changed kind"),
    }
    let snapshot = feeds.clone();
    let again = process_command(
        &mut feeds,
        Command::MarkRead("tech-news".to_string(), "http://x/1".to_string()),
        0,
    );
    assert_eq!(again, vec![Action::Persist]);
    assert_eq!(feeds, snapshot);
}

#[test]
fn mark_read_via_companion_thread_name() {
    let mut feeds = vec![feed("tech-news", "http://t/feed", vec![item("http://x/1")])];
    process_command(
        &mut feeds,
        Command::MarkRead("read-tech-news".to_string(), "http://x/1".to_string()),
        0,
    );
    match &feeds[0] {
        Feed::Rss(f) => assert!(f.channel.item[0].read),
        _ => panic!("feed changed kind"),
    }
}

#[test]
fn mark_unread_clears_flag() {
    let mut it = item("http://x/1");
    it.read = true;
    let mut feeds = vec![feed("tech-news", "http://t/feed", vec![it])];
    let actions = process_command(
        &mut feeds,
        Command::MarkUnread("tech-news".to_string(), "http://x/1".to_string()),
        0,
    );
    assert_eq!(actions, vec![Action::Persist]);
    match &feeds[0] {
        Feed::Rss(f) => assert!(!f.channel.item[0].read),
        _ => panic!("feed changed kind"),
    }
}

#[test]
fn mark_on_unknown_channel_changes_nothing() {
    let mut feeds = vec![feed("tech-news", "http://t/feed", vec![item("http://x/1")])];
    let before = feeds.clone();
    let actions = process_command(
        &mut feeds,
        Command::MarkRead("other-channel".to_string(), "http://x/1".to_string()),
        0,
    );
    assert!(actions.is_empty());
    assert_eq!(feeds, before);
}

#[test]
fn edit_renames_and_recreates_topology() {
    let mut feeds = three_feeds();
    let args = EditArgs { category: None, title: Some("Brand New".to_string()), url: None };
    let actions = process_command(&mut feeds, Command::EditFeed("two".to_string(), args), 0);
    // The edited feed moves to the end under its new title.
    assert_eq!(feeds.len(), 3);
    match &feeds[2] {
        Feed::Rss(f) => {
            assert_eq!(f.channel.title, "Brand New");
            assert_eq!(f.channel.url, "http://two/feed");
        }
        _ => panic!("feed changed kind"),
    }
    assert_eq!(
        actions,
        vec![
            Action::RemoveChannel("two".to_string()),
            Action::Reconcile(2),
            Action::PublishItems { feed: 2, start: 0 },
            Action::Persist,
        ]
    );
}

#[test]
fn edit_category_literal_none_clears_it() {
    let mut f = feed("one", "http://one/feed", vec![]);
    if let Feed::Rss(ref mut rss) = f {
        rss.channel.discord_category = Some("x".to_string());
    }
    let mut feeds = vec![f];
    let args = EditArgs { category: Some("None".to_string()), title: None, url: None };
    process_command(&mut feeds, Command::EditFeed("one".to_string(), args), 0);
    match &feeds[0] {
        Feed::Rss(f) => assert_eq!(f.channel.discord_category, None),
        _ => panic!("feed changed kind"),
    }
}

#[test]
fn edit_unknown_feed_replies_not_found() {
    let mut feeds = three_feeds();
    let before = feeds.clone();
    let args = EditArgs { category: None, title: None, url: None };
    let actions = process_command(&mut feeds, Command::EditFeed("missing".to_string(), args), 0);
    assert_eq!(feeds, before);
    assert_eq!(actions, vec![Action::ReplyNotFound("missing".to_string())]);
}

#[test]
fn remove_deletes_feed_and_channel() {
    let mut feeds = three_feeds();
    let actions = process_command(&mut feeds, Command::RemoveFeed("two".to_string()), 0);
    assert_eq!(feeds.len(), 2);
    assert!(feeds.iter().all(|f| f.url() != "http://two/feed"));
    assert_eq!(
        actions,
        vec![Action::RemoveChannel("two".to_string()), Action::Persist]
    );
}

#[test]
fn remove_resolves_by_url_too() {
    let mut feeds = three_feeds();
    let actions = process_command(
        &mut feeds,
        Command::RemoveFeed("http://three/feed".to_string()),
        0,
    );
    assert_eq!(feeds.len(), 2);
    assert_eq!(
        actions,
        vec![Action::RemoveChannel("three".to_string()), Action::Persist]
    );
}

#[test]
fn remove_unknown_feed_replies_not_found() {
    let mut feeds = three_feeds();
    let before = feeds.clone();
    let actions = process_command(&mut feeds, Command::RemoveFeed("missing".to_string()), 0);
    assert_eq!(feeds, before);
    assert_eq!(actions, vec![Action::ReplyNotFound("missing".to_string())]);
}

#[test]
fn reload_all_fetches_every_feed() {
    let mut feeds = three_feeds();
    let actions = process_command(&mut feeds, Command::ReloadFeed(None), 0);
    assert_eq!(
        actions,
        vec![
            Action::Fetch { url: "http://one/feed".to_string(), title: None },
            Action::Fetch { url: "http://two/feed".to_string(), title: None },
            Action::Fetch { url: "http://three/feed".to_string(), title: None },
            Action::Persist,
        ]
    );
}

#[test]
fn reload_one_feed_ignores_policy() {
    let mut feeds = three_feeds();
    // Give "one" a ttl that would make it ineligible; reload fetches anyway.
    if let Feed::Rss(ref mut rss) = feeds[0] {
        rss.channel.ttl = Some(10_000);
        rss.channel.last_updated = Some(1_000_000);
    }
    let actions = process_command(&mut feeds, Command::ReloadFeed(Some("one".to_string())), 0);
    assert_eq!(
        actions,
        vec![
            Action::Fetch { url: "http://one/feed".to_string(), title: None },
            Action::Persist,
        ]
    );
}

#[test]
fn export_returns_opml_document() {
    let mut feeds = three_feeds();
    let actions = process_command(&mut feeds, Command::Export(Some("mine".to_string())), 77);
    assert_eq!(actions.len(), 1);
    match &actions[0] {
        Action::ReplyOpml(o) => {
            assert_eq!(o.version, "2.0");
            assert_eq!(o.head.title, "mine");
            assert_eq!(o.head.date_created, Some(77));
            assert_eq!(o.head.date_modified, Some(77));
            assert_eq!(o.body.outline.len(), 3);
            assert_eq!(o.body.outline[0].xml_url, "http://one/feed");
            assert_eq!(o.body.outline[0].title, Some("one".to_string()));
            assert_eq!(o.body.outline[0].content_type, "rss");
        }
        other => panic!("unexpected action {:?}", other),
    }
}

#[test]
fn import_fetches_only_unknown_urls() {
    let mut feeds = three_feeds();
    let opml = Opml {
        version: "2.0".to_string(),
        head: Head {
            title: String::new(),
            date_created: None,
            date_modified: None,
            owner_name: None,
            owner_email: None,
        },
        body: Body {
            outline: vec![
                Outline {
                    text: "two".to_string(),
                    content_type: "rss".to_string(),
                    xml_url: "http://two/feed".to_string(),
                    title: Some("two".to_string()),
                    description: None,
                    html_url: None,
                },
                Outline {
                    text: "fresh".to_string(),
                    content_type: "rss".to_string(),
                    xml_url: "http://fresh/feed".to_string(),
                    title: Some("Fresh Feed".to_string()),
                    description: None,
                    html_url: None,
                },
            ],
        },
    };
    let before = feeds.clone();
    let actions = process_command(&mut feeds, Command::Import(opml), 0);
    assert_eq!(feeds, before);
    assert_eq!(
        actions,
        vec![Action::Fetch {
            url: "http://fresh/feed".to_string(),
            title: Some("Fresh Feed".to_string()),
        }]
    );
}

#[test]
fn exit_persists_then_stops() {
    let mut feeds = three_feeds();
    let before = feeds.clone();
    let actions = process_command(&mut feeds, Command::Exit, 0);
    assert_eq!(feeds, before);
    assert_eq!(actions, vec![Action::Persist, Action::Stop]);
}

#[test]
fn poll_plan_respects_eligibility() {
    let t0: i64 = 1_000_000;
    let mut feeds = three_feeds();
    // "one" was updated a minute ago with an hour-long ttl: not due.
    if let Feed::Rss(ref mut rss) = feeds[0] {
        rss.channel.ttl = Some(60);
        rss.channel.last_updated = Some(t0);
    }
    // "two" was updated long ago with a short ttl: due.
    if let Feed::Rss(ref mut rss) = feeds[1] {
        rss.channel.ttl = Some(60);
        rss.channel.last_updated = Some(t0 - 100 * 60);
    }
    // "three" was never fetched: due.
    let actions = plan_poll(&feeds, t0 + 60);
    assert_eq!(
        actions,
        vec![
            Action::Fetch { url: "http://two/feed".to_string(), title: None },
            Action::Fetch { url: "http://three/feed".to_string(), title: None },
            Action::Persist,
        ]
    );
}
