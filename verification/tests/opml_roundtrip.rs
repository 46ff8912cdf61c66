use rsspal::feed::Feed;
use rsspal::opml::feed_of_outline;
use rsspal::opml::feeds_of_opml;
use rsspal::opml::opml_of_feeds;
use rsspal::opml::Body;
use rsspal::opml::Head;
use rsspal::opml::Opml;
use rsspal::opml::Outline;

fn outline(content_type: &str, url: &str, title: &str, description: Option<&str>) -> Outline {
    Outline {
        text: title.to_string(),
        content_type: content_type.to_string(),
        xml_url: url.to_string(),
        title: Some(title.to_string()),
        description: description.map(|d| d.to_string()),
        html_url: None,
    }
}

fn document(outlines: Vec<Outline>) -> Opml {
    Opml {
        version: "2.0".to_string(),
        head: Head {
            title: "subs".to_string(),
            date_created: None,
            date_modified: None,
            owner_name: None,
            owner_email: None,
        },
        body: Body { outline: outlines },
    }
}

#[test]
fn import_then_export_keeps_url_title_pairs() {
    let doc = document(vec![
        outline("rss", "http://one/feed", "One", Some("first")),
        outline("atom", "http://two/feed", "Two", None),
        outline("rss", "http://three/feed", "Three", Some("third")),
    ]);
    let pairs: Vec<(String, Option<String>)> = doc
        .body
        .outline
        .iter()
        .map(|o| (o.xml_url.clone(), o.title.clone()))
        .collect();

    let feeds = feeds_of_opml(doc);
    let exported = opml_of_feeds("subs", &feeds, 123);

    let exported_pairs: Vec<(String, Option<String>)> = exported
        .body
        .outline
        .iter()
        .map(|o| (o.xml_url.clone(), o.title.clone()))
        .collect();
    assert_eq!(exported_pairs, pairs);
}

#[test]
fn outline_types_choose_the_feed_kind() {
    let rss = feed_of_outline(outline("rss", "http://r/feed", "R", None));
    assert!(matches!(rss, Feed::Rss(_)));
    let atom = feed_of_outline(outline("atom", "http://a/feed", "A", None));
    assert!(matches!(atom, Feed::Atom(_)));
    // An unknown type falls back to RSS.
    let other = feed_of_outline(outline("weird", "http://w/feed", "W", None));
    assert!(matches!(other, Feed::Rss(_)));
}

#[test]
fn imported_feed_carries_outline_fields() {
    let f = feed_of_outline(outline("rss", "http://r/feed", "R Title", Some("R desc")));
    match f {
        Feed::Rss(rss) => {
            assert_eq!(rss.channel.title, "R Title");
            assert_eq!(rss.channel.description, "R desc");
            assert_eq!(rss.channel.url, "http://r/feed");
            assert!(rss.channel.item.is_empty());
            assert_eq!(rss.channel.last_updated, None);
        }
        _ => panic!("wrong kind"),
    }
}

#[test]
fn atom_outline_html_url_becomes_link() {
    let mut o = outline("atom", "http://a/feed", "A", Some("sub"));
    o.html_url = Some("http://a/home".to_string());
    let f = feed_of_outline(o);
    match f {
        Feed::Atom(a) => {
            assert_eq!(a.subtitle, Some("sub".to_string()));
            assert_eq!(a.link.len(), 1);
            assert_eq!(a.link[0].href, "http://a/home");
            assert_eq!(a.link[0].rel, None);
        }
        _ => panic!("wrong kind"),
    }
}

#[test]
fn export_stamps_head_with_now() {
    let feeds: Vec<Feed> = Vec::new();
    let o = opml_of_feeds("empty", &feeds, 55);
    assert_eq!(o.version, "2.0");
    assert_eq!(o.head.title, "empty");
    assert_eq!(o.head.date_created, Some(55));
    assert_eq!(o.head.date_modified, Some(55));
    assert!(o.body.outline.is_empty());
}
