use rsspal::discord::topology::plan_empty_category_cleanup;
use rsspal::discord::topology::plan_feed;
use rsspal::discord::topology::plan_remove_channel;
use rsspal::discord::topology::plan_setup;
use rsspal::discord::topology::ChannelKind;
use rsspal::discord::topology::ChannelState;
use rsspal::discord::topology::TopologyOp;
use rsspal::feed::rss::RssChannel;
use rsspal::feed::rss::RssFeed;
use rsspal::feed::Feed;

fn feed(title: &str, url: &str, category: Option<&str>) -> Feed {
    Feed::Rss(RssFeed {
        channel: RssChannel {
            title: title.to_string(),
            description: "about".to_string(),
            link: String::new(),
            url: url.to_string(),
            copyright: None,
            managing_editor: None,
            web_master: None,
            pub_date: None,
            category: Vec::new(),
            docs: None,
            ttl: None,
            image: None,
            skip_hours: Vec::new(),
            skip_days: Vec::new(),
            item: Vec::new(),
            last_updated: None,
            discord_category: category.map(|c| c.to_string()),
        },
    })
}

fn channel(id: u64, name: &str, kind: ChannelKind, parent: Option<u64>) -> ChannelState {
    ChannelState { id, name: name.to_string(), kind, parent }
}

#[test]
fn missing_category_is_created_before_the_channel() {
    // The feed wants category "x", which does not exist: the plan creates
    // the category first, then the feed channel parented to it.
    let channels: Vec<ChannelState> = Vec::new();
    let mut created: Vec<String> = Vec::new();
    let f = feed("Tech News", "http://t/feed", Some("x"));
    let ops = plan_feed(&channels, &mut created, &f);
    assert_eq!(ops.len(), 3);
    assert_eq!(ops[0], TopologyOp::CreateCategory { name: "x".to_string() });
    assert_eq!(
        ops[1],
        TopologyOp::CreateChannel {
            name: "tech-news".to_string(),
            topic: "about".to_string(),
            parent: Some("x".to_string()),
        }
    );
    assert_eq!(
        ops[2],
        TopologyOp::CreateReadThread {
            channel: "tech-news".to_string(),
            name: "read-tech-news".to_string(),
        }
    );
}

#[test]
fn existing_channel_is_edited_in_place() {
    let channels = vec![
        channel(1, "x", ChannelKind::Category, None),
        channel(2, "tech-news", ChannelKind::Text, Some(1)),
        channel(3, "read-tech-news", ChannelKind::Thread, Some(2)),
    ];
    let mut created: Vec<String> = Vec::new();
    let f = feed("Tech News", "http://t/feed", Some("x"));
    let ops = plan_feed(&channels, &mut created, &f);
    assert_eq!(ops.len(), 2);
    assert_eq!(
        ops[0],
        TopologyOp::EditChannel { name: "tech-news".to_string(), parent: Some("x".to_string()) }
    );
    assert_eq!(
        ops[1],
        TopologyOp::EditReadThread {
            name: "read-tech-news".to_string(),
            topic: "Read items: about".to_string(),
        }
    );
}

#[test]
fn two_feeds_share_one_new_category() {
    let channels: Vec<ChannelState> = Vec::new();
    let feeds = vec![
        feed("One", "http://one/feed", Some("x")),
        feed("Two", "http://two/feed", Some("x")),
    ];
    let ops = plan_setup(&channels, &feeds);
    let creations: Vec<&TopologyOp> = ops
        .iter()
        .filter(|op| matches!(op, TopologyOp::CreateCategory { .. }))
        .collect();
    assert_eq!(creations.len(), 1);
    assert_eq!(ops.len(), 5);
}

#[test]
fn empty_categories_are_pruned() {
    let channels = vec![
        channel(1, "empty-cat", ChannelKind::Category, None),
        channel(2, "full-cat", ChannelKind::Category, None),
        channel(3, "child", ChannelKind::Text, Some(2)),
    ];
    let ops = plan_empty_category_cleanup(&channels);
    assert_eq!(ops, vec![TopologyOp::DeleteChannel { name: "empty-cat".to_string() }]);
}

#[test]
fn removing_a_feed_deletes_its_channel() {
    let channels = vec![
        channel(1, "cat", ChannelKind::Category, None),
        channel(2, "tech-news", ChannelKind::Text, Some(1)),
    ];
    let ops = plan_remove_channel(&channels, "tech-news");
    assert_eq!(ops[0], TopologyOp::DeleteChannel { name: "tech-news".to_string() });
    // The category still had its child in the listing, so nothing else goes.
    assert_eq!(ops.len(), 1);
}

#[test]
fn removing_an_absent_channel_only_prunes() {
    let channels = vec![channel(1, "lonely", ChannelKind::Category, None)];
    let ops = plan_remove_channel(&channels, "nothing-here");
    assert_eq!(ops, vec![TopologyOp::DeleteChannel { name: "lonely".to_string() }]);
}
