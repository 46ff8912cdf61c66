//! OPML subscription lists: export renders the feed collection as outlines,
//! import turns outlines back into candidate feeds.  A round trip keeps each
//! feed's (URL, title) pair.

use vstd::prelude::*;

use crate::feed::atom::AtomFeed;
use crate::feed::atom::Link;
use crate::feed::clone_opt_string;
use crate::feed::opt_view;
use crate::feed::rss::RssChannel;
use crate::feed::rss::RssFeed;
use crate::feed::Feed;

verus! {

/// An OPML document.
#[derive(Clone, Debug, PartialEq, Eq)]
pub struct Opml {
    pub version: String,
    pub head: Head,
    pub body: Body,
}

/// The document head.
#[derive(Clone, Debug, PartialEq, Eq)]
pub struct Head {
    pub title: String,
    pub date_created: Option<i64>,
    pub date_modified: Option<i64>,
    pub owner_name: Option<String>,
    pub owner_email: Option<String>,
}

/// The document body: one outline per feed.
#[derive(Clone, Debug, PartialEq, Eq)]
pub struct Body {
    pub outline: Vec<Outline>,
}

/// One subscription outline.
#[derive(Clone, Debug, PartialEq, Eq)]
pub struct Outline {
    pub text: String,
    pub content_type: String,
    pub xml_url: String,
    pub title: Option<String>,
    pub description: Option<String>,
    pub html_url: Option<String>,
}

/// A feed link shown to readers: unqualified or `rel="alternate"`.
pub open spec fn is_alternate_link(l: Link) -> bool {
    match l.rel {
        None => true,
        Some(r) => r@ == "alternate"@,
    }
}

/// The href of the first alternate link, if any.
pub open spec fn first_alternate_href(links: Seq<Link>) -> Option<Seq<char>>
    decreases links.len(),
{
    if links.len() == 0 {
        None
    } else if is_alternate_link(links[0]) {
        Some(links[0].href@)
    } else {
        first_alternate_href(links.drop_first())
    }
}

/// How an exported outline reflects a feed: text and title carry the feed's
/// title, the type names the feed's kind, `xmlUrl` is the subscription URL,
/// the description is the feed's, and an Atom feed's alternate link becomes
/// `htmlUrl`.
pub open spec fn outline_matches(f: Feed, o: Outline) -> bool {
    &&& o.text@ == f.title_spec()
    &&& opt_view(o.title) == Some(f.title_spec())
    &&& o.xml_url@ == f.url_spec()
    &&& match f {
        Feed::Rss(rss) => {
            &&& o.content_type@ == "rss"@
            &&& opt_view(o.description) == Some(rss.channel.description@)
            &&& o.html_url is None
        },
        Feed::Atom(a) => {
            &&& o.content_type@ == "atom"@
            &&& opt_view(o.description) == opt_view(a.subtitle)
            &&& opt_view(o.html_url) == first_alternate_href(a.link@)
        },
    }
}

/// Render one feed as an outline.
pub fn outline_of_feed(f: &Feed) -> (o: Outline)
    ensures
        outline_matches(*f, o),
{
    match f {
        Feed::Rss(rss) => Outline {
            text: rss.channel.title.clone(),
            content_type: "rss".to_owned(),
            xml_url: rss.channel.url.clone(),
            title: Some(rss.channel.title.clone()),
            description: Some(rss.channel.description.clone()),
            html_url: None,
        },
        Feed::Atom(a) => {
            let link = first_alternate(&a.link);
            Outline {
                text: a.title.clone(),
                content_type: "atom".to_owned(),
                xml_url: a.url.clone(),
                title: Some(a.title.clone()),
                description: clone_opt_string(&a.subtitle),
                html_url: link,
            }
        },
    }
}

/// The href of the first alternate link of `links`, cloned.
fn first_alternate(links: &Vec<Link>) -> (r: Option<String>)
    ensures
        opt_view(r) == first_alternate_href(links@),
{
    proof {
        assert(links@.subrange(0, links@.len() as int) =~= links@);
    }
    let mut i: usize = 0;
    while i < links.len()
        invariant
            i <= links@.len(),
            first_alternate_href(links@) == first_alternate_href(
                links@.subrange(i as int, links@.len() as int),
            ),
        decreases links@.len() - i,
    {
        let ghost pre = links@.subrange(i as int, links@.len() as int);
        proof {
            assert(pre[0] == links@[i as int]);
            assert(pre.drop_first() =~= links@.subrange(i as int + 1, links@.len() as int));
        }
        let l = &links[i];
        let alt: bool = match &l.rel {
            None => true,
            Some(r) => crate::discord::str_eq(r.as_str(), "alternate"),
        };
        assert(alt == is_alternate_link(links@[i as int]));
        if alt {
            return Some(l.href.clone());
        }
        i = i + 1;
    }
    None
}

/// How the whole export reflects the collection: version 2.0, the given
/// title, both dates stamped `now`, and one matching outline per feed, in
/// collection order.
pub open spec fn opml_matches(feeds: Seq<Feed>, title: Seq<char>, now: i64, o: Opml) -> bool {
    &&& o.version@ == "2.0"@
    &&& o.head.title@ == title
    &&& o.head.date_created == Some(now)
    &&& o.head.date_modified == Some(now)
    &&& o.head.owner_name is None
    &&& o.head.owner_email is None
    &&& o.body.outline@.len() == feeds.len()
    &&& forall|i: int| 0 <= i < feeds.len() ==> outline_matches(feeds[i], #[trigger] o.body.outline@[i])
}

/// Export the collection as an OPML document stamped with time `now`.
pub fn opml_of_feeds(title: &str, feeds: &Vec<Feed>, now: i64) -> (o: Opml)
    ensures
        opml_matches(feeds@, title@, now, o),
{
    let mut outline: Vec<Outline> = Vec::new();
    let mut i: usize = 0;
    while i < feeds.len()
        invariant
            i <= feeds@.len(),
            outline@.len() == i,
            forall|j: int| 0 <= j < i ==> outline_matches(feeds@[j], #[trigger] outline@[j]),
        decreases feeds@.len() - i,
    {
        let o = outline_of_feed(&feeds[i]);
        outline.push(o);
        i = i + 1;
    }
    Opml {
        version: "2.0".to_owned(),
        head: Head {
            title: title.to_owned(),
            date_created: Some(now),
            date_modified: Some(now),
            owner_name: None,
            owner_email: None,
        },
        body: Body { outline },
    }
}

/// How an imported feed reflects its outline: the outline's title (or, when
/// absent, nothing) becomes the title, `xmlUrl` the subscription URL, the
/// description the feed's; a `type` of `atom` gives an Atom feed whose only
/// link is the outline's `htmlUrl`, any other type an RSS feed.  Every other
/// field starts out empty.
pub open spec fn feed_matches_outline(o: Outline, f: Feed) -> bool {
    if o.content_type@ == "atom"@ {
        match f {
            Feed::Atom(a) => {
                &&& a.title@ == (match o.title {
                    Some(t) => t@,
                    None => Seq::<char>::empty(),
                })
                &&& a.subtitle == o.description
                &&& a.url@ == o.xml_url@
                &&& (match o.html_url {
                    Some(h) => a.link@ == seq![
                        (Link {
                            href: h,
                            rel: None,
                            content_type: None,
                            hreflang: None,
                            title: None,
                            bytes: None,
                        }),
                    ],
                    None => a.link@.len() == 0,
                })
                &&& a.id@ == Seq::<char>::empty()
                &&& a.updated is None
                &&& a.author is None
                &&& a.category@.len() == 0
                &&& a.icon is None
                &&& a.logo is None
                &&& a.rights is None
                &&& a.entry@.len() == 0
                &&& a.ttl is None
                &&& a.skip_days@.len() == 0
                &&& a.skip_hours@.len() == 0
                &&& a.last_updated is None
                &&& a.discord_category is None
            },
            Feed::Rss(_) => false,
        }
    } else {
        match f {
            Feed::Rss(rss) => {
                &&& rss.channel.title@ == (match o.title {
                    Some(t) => t@,
                    None => Seq::<char>::empty(),
                })
                &&& rss.channel.description@ == (match o.description {
                    Some(d) => d@,
                    None => Seq::<char>::empty(),
                })
                &&& rss.channel.url@ == o.xml_url@
                &&& rss.channel.link@ == Seq::<char>::empty()
                &&& rss.channel.copyright is None
                &&& rss.channel.managing_editor is None
                &&& rss.channel.web_master is None
                &&& rss.channel.pub_date is None
                &&& rss.channel.category@.len() == 0
                &&& rss.channel.docs is None
                &&& rss.channel.ttl is None
                &&& rss.channel.image is None
                &&& rss.channel.skip_hours@.len() == 0
                &&& rss.channel.skip_days@.len() == 0
                &&& rss.channel.item@.len() == 0
                &&& rss.channel.last_updated is None
                &&& rss.channel.discord_category is None
            },
            Feed::Atom(_) => false,
        }
    }
}

/// Turn one outline into a candidate feed (no fetch happens here).
pub fn feed_of_outline(o: Outline) -> (f: Feed)
    ensures
        feed_matches_outline(o, f),
{
    let Outline { text: _, content_type, xml_url, title, description, html_url } = o;
    let title_str: String = match title {
        Some(t) => t,
        None => String::new(),
    };
    if crate::discord::str_eq(content_type.as_str(), "atom") {
        let mut link: Vec<Link> = Vec::new();
        if let Some(h) = html_url {
            link.push(
                Link {
                    href: h,
                    rel: None,
                    content_type: None,
                    hreflang: None,
                    title: None,
                    bytes: None,
                },
            );
        }
        Feed::Atom(
            AtomFeed {
                id: String::new(),
                title: title_str,
                updated: None,
                author: None,
                link,
                category: Vec::new(),
                icon: None,
                logo: None,
                rights: None,
                subtitle: description,
                entry: Vec::new(),
                ttl: None,
                skip_days: Vec::new(),
                skip_hours: Vec::new(),
                last_updated: None,
                url: xml_url,
                discord_category: None,
            },
        )
    } else {
        let description_str: String = match description {
            Some(d) => d,
            None => String::new(),
        };
        Feed::Rss(
            RssFeed {
                channel: RssChannel {
                    title: title_str,
                    description: description_str,
                    link: String::new(),
                    url: xml_url,
                    copyright: None,
                    managing_editor: None,
                    web_master: None,
                    pub_date: None,
                    category: Vec::new(),
                    docs: None,
                    ttl: None,
                    image: None,
                    skip_hours: Vec::new(),
                    skip_days: Vec::new(),
                    item: Vec::new(),
                    last_updated: None,
                    discord_category: None,
                },
            },
        )
    }
}

/// Turn a whole document into candidate feeds, one per outline, in order.
pub fn feeds_of_opml(opml: Opml) -> (r: Vec<Feed>)
    ensures
        r@.len() == opml.body.outline@.len(),
        forall|i: int|
            0 <= i < r@.len() ==> feed_matches_outline(opml.body.outline@[i], #[trigger] r@[i]),
{
    let Opml { version: _, head: _, body } = opml;
    let Body { outline } = body;
    let ghost outlines = outline@;
    let n: usize = outline.len();
    let mut rev: Vec<Outline> = Vec::new();
    let mut src = outline;
    while src.len() > 0
        invariant
            n == outlines.len(),
            src@.len() + rev@.len() == n,
            src@ == outlines.subrange(0, src@.len() as int),
            forall|j: int| 0 <= j < rev@.len() ==> rev@[j] == outlines[n - 1 - j],
        decreases src@.len(),
    {
        let o = src.pop().unwrap();
        assert(o == outlines[src@.len() as int]);
        assert(src@ =~= outlines.subrange(0, src@.len() as int));
        rev.push(o);
    }
    let mut r: Vec<Feed> = Vec::new();
    while rev.len() > 0
        invariant
            n == outlines.len(),
            r@.len() + rev@.len() == n,
            forall|j: int| 0 <= j < rev@.len() ==> rev@[j] == outlines[n - 1 - j],
            forall|j: int|
                0 <= j < r@.len() ==> feed_matches_outline(outlines[j], #[trigger] r@[j]),
        decreases rev@.len(),
    {
        let o = rev.pop().unwrap();
        assert(o == outlines[r@.len() as int]);
        let f = feed_of_outline(o);
        r.push(f);
    }
    r
}

/// Law: an outline that carries a title keeps its (URL, title) pair across a
/// round trip — import makes a feed of it, export renders that feed back as
/// an outline with the same `xmlUrl` and the same title.
pub proof fn lemma_opml_round_trip(o: Outline, f: Feed, o2: Outline)
    requires
        o.title is Some,
        feed_matches_outline(o, f),
        outline_matches(f, o2),
    ensures
        o2.xml_url@ == o.xml_url@,
        opt_view(o2.title) == opt_view(o.title),
{
}

/// Law: the whole-document round trip — export applied to the feeds an
/// import produced — keeps the list of (URL, title) pairs, in order, for
/// documents whose outlines all carry titles.
pub proof fn lemma_export_import_pairs(opml: Opml, feeds: Seq<Feed>, out: Opml)
    requires
        feeds.len() == opml.body.outline@.len(),
        forall|i: int|
            0 <= i < feeds.len() ==> feed_matches_outline(opml.body.outline@[i], #[trigger] feeds[i]),
        out.body.outline@.len() == feeds.len(),
        forall|i: int|
            0 <= i < feeds.len() ==> outline_matches(#[trigger] feeds[i], out.body.outline@[i]),
        forall|i: int| 0 <= i < opml.body.outline@.len() ==> (#[trigger] opml.body.outline@[i].title) is Some,
    ensures
        out.body.outline@.len() == opml.body.outline@.len(),
        forall|i: int|
            0 <= i < opml.body.outline@.len() ==> (#[trigger] out.body.outline@[i].xml_url@)
                == opml.body.outline@[i].xml_url@ && opt_view(out.body.outline@[i].title)
                == opt_view(opml.body.outline@[i].title),
{
    assert forall|i: int|
        0 <= i < opml.body.outline@.len() implies (#[trigger] out.body.outline@[i].xml_url@)
        == opml.body.outline@[i].xml_url@ && opt_view(out.body.outline@[i].title) == opt_view(
        opml.body.outline@[i].title,
    ) by {
        lemma_opml_round_trip(opml.body.outline@[i], feeds[i], out.body.outline@[i]);
    }
}

} // verus!
