use rsspal::feed::atom::normalize_entry_id;
use rsspal::feed::atom::Author;
use rsspal::feed::atom::Entry;
use rsspal::feed::atom::Link;
use rsspal::feed::atom::Source;
use rsspal::feed::is_image_mime_type;
use rsspal::feed::rss::Enclosure;
use rsspal::feed::rss::RssItem;

fn entry(id: &str) -> Entry {
    Entry {
        id: id.to_string(),
        title: "entry title".to_string(),
        link: Vec::new(),
        updated: None,
        author: None,
        contributer: None,
        published: None,
        rights: None,
        source: None,
        summary: None,
        read: false,
        enclosure: None,
        comments: None,
    }
}

fn link(href: &str, rel: Option<&str>, content_type: Option<&str>) -> Link {
    Link {
        href: href.to_string(),
        rel: rel.map(|r| r.to_string()),
        content_type: content_type.map(|t| t.to_string()),
        hreflang: None,
        title: None,
        bytes: None,
    }
}

fn item(link: &str) -> RssItem {
    RssItem {
        title: None,
        link: link.to_string(),
        description: "item description".to_string(),
        date: None,
        author: None,
        category: Vec::new(),
        comments: None,
        enclosure: None,
        guid: None,
        source: None,
        read: false,
    }
}

#[test]
fn image_mime_types() {
    assert!(is_image_mime_type("image/jpeg"));
    assert!(is_image_mime_type("image/jpg"));
    assert!(is_image_mime_type("image/png"));
    assert!(is_image_mime_type("image/gif"));
    assert!(!is_image_mime_type("image/webp"));
    assert!(!is_image_mime_type("text/html"));
}

#[test]
fn entry_ids_from_the_video_platform_become_watch_urls() {
    assert_eq!(
        normalize_entry_id("yt:video:dQw4w9WgXcQ"),
        "https://youtube.com/watch?v=dQw4w9WgXcQ"
    );
    assert_eq!(normalize_entry_id("urn:uuid:1234"), "urn:uuid:1234");
    assert_eq!(normalize_entry_id("yt:video:"), "https://youtube.com/watch?v=");
}

#[test]
fn link_href_prefers_self_or_unqualified_links() {
    let mut e = entry("urn:1");
    e.link = vec![
        link("http://a/alt", Some("alternate"), None),
        link("http://a/self", Some("self"), None),
    ];
    assert_eq!(e.get_link_href(), "http://a/self");

    e.link = vec![link("http://a/plain", None, None)];
    assert_eq!(e.get_link_href(), "http://a/plain");

    e.link = vec![link("http://a/alt", Some("alternate"), None)];
    assert_eq!(e.get_link_href(), "urn:1");
}

#[test]
fn enclosure_image_comes_from_links_first() {
    let mut e = entry("urn:1");
    e.link = vec![
        link("http://a/page", None, None),
        link("http://a/pic.png", Some("enclosure"), Some("image/png")),
    ];
    assert_eq!(e.get_enclosure_img(), Some("http://a/pic.png"));

    e.link = vec![link("http://a/file.pdf", Some("enclosure"), Some("application/pdf"))];
    e.enclosure = Some(Enclosure {
        url: "http://a/photo.jpg".to_string(),
        length: 10,
        content_type: "image/jpeg".to_string(),
    });
    assert_eq!(e.get_enclosure_img(), Some("http://a/photo.jpg"));

    e.enclosure = Some(Enclosure {
        url: "http://a/audio.mp3".to_string(),
        length: 10,
        content_type: "audio/mpeg".to_string(),
    });
    assert_eq!(e.get_enclosure_img(), None);
}

#[test]
fn rss_embed_renders_item() {
    let mut it = item("http://x/1");
    it.title = Some("A Title".to_string());
    it.author = Some("someone".to_string());
    it.date = Some(99);
    it.comments = Some("http://x/1/comments".to_string());
    it.enclosure = Some(Enclosure {
        url: "http://x/pic.gif".to_string(),
        length: 5,
        content_type: "image/gif".to_string(),
    });
    let e = it.to_embed();
    assert_eq!(e.title, "A Title");
    assert_eq!(e.author_name, Some("someone".to_string()));
    assert_eq!(e.author_url, None);
    assert_eq!(e.image, Some("http://x/pic.gif".to_string()));
    assert_eq!(e.timestamp, Some(99));
    assert_eq!(e.description, "item description");
    assert_eq!(e.fields.len(), 2);
    assert_eq!(e.fields[0].name, "link");
    assert_eq!(e.fields[0].value, "http://x/1");
    assert!(!e.fields[0].inline);
    assert_eq!(e.fields[1].name, "comments");
    assert_eq!(e.fields[1].value, "http://x/1/comments");
    assert!(e.fields[1].inline);
}

#[test]
fn rss_embed_untitled_placeholder() {
    let it = item("http://x/1");
    let e = it.to_embed();
    assert_eq!(e.title, "(Untitled)");
    assert_eq!(e.image, None);
    assert_eq!(e.fields.len(), 1);
}

#[test]
fn rss_embed_source_fields() {
    let mut it = item("http://x/1");
    it.source = Some(rsspal::feed::rss::Source {
        url: "http://src/feed".to_string(),
        source: "Source Name".to_string(),
    });
    let e = it.to_embed();
    assert_eq!(e.fields.len(), 3);
    assert_eq!(e.fields[1].name, "source");
    assert_eq!(e.fields[1].value, "Source Name");
    assert_eq!(e.fields[2].name, "source url");
    assert_eq!(e.fields[2].value, "http://src/feed");
}

#[test]
fn atom_embed_renders_entry() {
    let mut en = entry("urn:1");
    en.link = vec![link("http://a/post", None, None)];
    en.author = Some(Author {
        name: "Ada".to_string(),
        uri: Some("http://ada.example".to_string()),
        email: Some("ada@example.org".to_string()),
    });
    en.published = Some(7);
    en.summary = Some("short".to_string());
    en.source = Some(Source {
        id: "urn:src".to_string(),
        title: "Src".to_string(),
        updated: 123,
    });
    let e = en.to_embed();
    assert_eq!(e.author_name, Some("Ada (ada@example.org)".to_string()));
    assert_eq!(e.author_url, Some("http://ada.example".to_string()));
    assert_eq!(e.title, "entry title");
    assert_eq!(e.timestamp, Some(7));
    assert_eq!(e.description, "short");
    assert_eq!(e.fields.len(), 4);
    assert_eq!(e.fields[0].name, "link");
    assert_eq!(e.fields[0].value, "http://a/post");
    assert_eq!(e.fields[1].name, "source");
    assert_eq!(e.fields[1].value, "Src");
    assert_eq!(e.fields[2].name, "source id");
    assert_eq!(e.fields[2].value, "urn:src");
    assert_eq!(e.fields[3].name, "source updated");
    assert_eq!(e.fields[3].value, "123");
}

#[test]
fn atom_embed_placeholder_summary() {
    let en = entry("urn:1");
    let e = en.to_embed();
    assert_eq!(e.description, "(No summary)");
    assert_eq!(e.author_name, None);
    // Without links the entry id stands in as the link field.
    assert_eq!(e.fields[0].value, "urn:1");
}
