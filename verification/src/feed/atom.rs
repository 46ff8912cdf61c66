//! The Atom side of the feed model.  An entry's identity is its id, with one
//! normalization rule: ids minted by a well-known video platform's feed
//! generator (`yt:video:<v>`) are rewritten to the video's watch URL, so that
//! the id doubles as a link.

use vstd::prelude::*;
use vstd::string::StrSliceExecFns;
use vstd::string::StringExecFns;

use crate::discord::str_eq;
use crate::discord::EmbedData;
use crate::discord::EmbedField;
use crate::feed::is_image_mime;
use crate::feed::rss::due_at;
use crate::feed::rss::Day;
use crate::feed::rss::Enclosure;
use crate::feed::rss::Hour;

verus! {

/// An Atom feed.
#[derive(Clone, Debug, PartialEq, Eq)]
pub struct AtomFeed {
    pub id: String,
    pub title: String,
    pub updated: Option<i64>,
    pub author: Option<Author>,
    pub link: Vec<Link>,
    pub category: Vec<Category>,
    pub icon: Option<String>,
    pub logo: Option<String>,
    pub rights: Option<String>,
    pub subtitle: Option<String>,
    pub entry: Vec<Entry>,
    pub ttl: Option<usize>,
    pub skip_days: Vec<Day>,
    pub skip_hours: Vec<Hour>,
    pub last_updated: Option<i64>,
    pub url: String,
    pub discord_category: Option<String>,
}

/// A typed link of a feed or entry.
#[derive(Clone, Debug, PartialEq, Eq)]
pub struct Link {
    pub href: String,
    pub rel: Option<String>,
    pub content_type: Option<String>,
    pub hreflang: Option<String>,
    pub title: Option<String>,
    pub bytes: Option<u64>,
}

/// A category tag on a feed.
#[derive(Clone, Debug, PartialEq, Eq)]
pub struct Category {
    pub term: String,
}

/// One Atom entry; its identity within a feed is its (normalized) id.
#[derive(Clone, Debug, PartialEq, Eq)]
pub struct Entry {
    pub id: String,
    pub title: String,
    pub link: Vec<Link>,
    pub updated: Option<i64>,
    pub author: Option<Author>,
    pub contributer: Option<Contributer>,
    pub published: Option<i64>,
    pub rights: Option<String>,
    pub source: Option<Source>,
    pub summary: Option<String>,
    pub read: bool,
    pub enclosure: Option<Enclosure>,
    pub comments: Option<String>,
}

/// An entry's or feed's author.
#[derive(Clone, Debug, PartialEq, Eq)]
pub struct Author {
    pub name: String,
    pub uri: Option<String>,
    pub email: Option<String>,
}

/// Contributors to an entry.
#[derive(Clone, Debug, PartialEq, Eq)]
pub struct Contributer {
    pub contributers: Vec<String>,
}

/// The source feed an entry was forwarded from.
#[derive(Clone, Debug, PartialEq, Eq)]
pub struct Source {
    pub id: String,
    pub title: String,
    pub updated: i64,
}

/// A link that stands for the entry itself: unqualified, or `rel="self"`.
pub open spec fn is_main_link(l: Link) -> bool {
    match l.rel {
        None => true,
        Some(r) => r@ == "self"@,
    }
}

/// The href of the first main link, if any.
pub open spec fn first_main_href(links: Seq<Link>) -> Option<Seq<char>>
    decreases links.len(),
{
    if links.len() == 0 {
        None
    } else if is_main_link(links[0]) {
        Some(links[0].href@)
    } else {
        first_main_href(links.drop_first())
    }
}

/// A link that carries an image enclosure.
pub open spec fn is_image_link(l: Link) -> bool {
    &&& match l.rel {
        None => false,
        Some(r) => r@ == "enclosure"@,
    }
    &&& match l.content_type {
        None => false,
        Some(t) => is_image_mime(t@),
    }
}

/// The href of the first image-enclosure link, if any.
pub open spec fn first_image_href(links: Seq<Link>) -> Option<Seq<char>>
    decreases links.len(),
{
    if links.len() == 0 {
        None
    } else if is_image_link(links[0]) {
        Some(links[0].href@)
    } else {
        first_image_href(links.drop_first())
    }
}

impl Entry {
    /// The link this entry is identified by towards readers: the first main
    /// link's href, or the entry id when no link qualifies.
    pub open spec fn link_href_spec(&self) -> Seq<char> {
        match first_main_href(self.link@) {
            Some(h) => h,
            None => self.id@,
        }
    }

    /// The image to show for this entry: the first image-enclosure link, or
    /// the enclosure element when it carries an image.
    pub open spec fn enclosure_img_spec(&self) -> Option<Seq<char>> {
        match first_image_href(self.link@) {
            Some(h) => Some(h),
            None => match self.enclosure {
                Some(enc) => if is_image_mime(enc.content_type@) {
                    Some(enc.url@)
                } else {
                    None
                },
                None => None,
            },
        }
    }

    /// The first main link's href, or the entry id.
    pub fn get_link_href(&self) -> (r: &str)
        ensures
            r@ == self.link_href_spec(),
    {
        proof {
            assert(self.link@.subrange(0, self.link@.len() as int) =~= self.link@);
        }
        let mut i: usize = 0;
        while i < self.link.len()
            invariant
                i <= self.link@.len(),
                first_main_href(self.link@) == first_main_href(
                    self.link@.subrange(i as int, self.link@.len() as int),
                ),
            decreases self.link@.len() - i,
        {
            let ghost pre = self.link@.subrange(i as int, self.link@.len() as int);
            proof {
                assert(pre[0] == self.link@[i as int]);
                assert(pre.drop_first() =~= self.link@.subrange(
                    i as int + 1,
                    self.link@.len() as int,
                ));
            }
            let l = &self.link[i];
            let main: bool = match &l.rel {
                None => true,
                Some(r) => str_eq(r.as_str(), "self"),
            };
            assert(main == is_main_link(self.link@[i as int]));
            if main {
                return &l.href;
            }
            i = i + 1;
        }
        &self.id
    }

    /// The image enclosure's URL, when the entry carries one.
    pub fn get_enclosure_img(&self) -> (r: Option<&str>)
        ensures
            match r {
                Some(s) => self.enclosure_img_spec() == Some(s@),
                None => self.enclosure_img_spec() is None,
            },
    {
        proof {
            assert(self.link@.subrange(0, self.link@.len() as int) =~= self.link@);
        }
        let mut i: usize = 0;
        while i < self.link.len()
            invariant
                i <= self.link@.len(),
                first_image_href(self.link@) == first_image_href(
                    self.link@.subrange(i as int, self.link@.len() as int),
                ),
            decreases self.link@.len() - i,
        {
            let ghost pre = self.link@.subrange(i as int, self.link@.len() as int);
            proof {
                assert(pre[0] == self.link@[i as int]);
                assert(pre.drop_first() =~= self.link@.subrange(
                    i as int + 1,
                    self.link@.len() as int,
                ));
            }
            let l = &self.link[i];
            let rel_ok: bool = match &l.rel {
                None => false,
                Some(r) => str_eq(r.as_str(), "enclosure"),
            };
            let img: bool = rel_ok && match &l.content_type {
                None => false,
                Some(t) => crate::feed::is_image_mime_type(t.as_str()),
            };
            assert(img == is_image_link(self.link@[i as int]));
            if img {
                return Some(&l.href);
            }
            i = i + 1;
        }
        match &self.enclosure {
            Some(enc) => {
                if crate::feed::is_image_mime_type(enc.content_type.as_str()) {
                    Some(&enc.url)
                } else {
                    None
                }
            },
            None => None,
        }
    }
}

/// How the rendered embed reflects an Atom entry: the author (name, with the
/// email in parentheses when present, and the author's URI), the entry's
/// image enclosure, its title, publish date and summary (or a placeholder),
/// then a link field, a comments field when present, and the source's title,
/// id and update time when present.
pub open spec fn entry_embed_matches(en: Entry, e: EmbedData) -> bool {
    let comment_fields: int = if en.comments is Some {
        1int
    } else {
        0int
    };
    &&& (match en.author {
        Some(a) => {
            &&& crate::feed::opt_view(e.author_url) == crate::feed::opt_view(a.uri)
            &&& crate::feed::opt_view(e.author_name) == Some(
                match a.email {
                    Some(em) => a.name@ + " ("@ + em@ + ")"@,
                    None => a.name@,
                },
            )
        },
        None => e.author_name is None && e.author_url is None,
    })
    &&& crate::feed::opt_view(e.image) == en.enclosure_img_spec()
    &&& e.title@ == en.title@
    &&& e.timestamp == en.published
    &&& e.description@ == (match en.summary {
        Some(s) => s@,
        None => "(No summary)"@,
    })
    &&& e.fields@.len() == 1 + comment_fields + (if en.source is Some {
        3int
    } else {
        0int
    })
    &&& e.fields@[0].name@ == "link"@
    &&& e.fields@[0].value@ == en.link_href_spec()
    &&& e.fields@[0].inline == false
    &&& (match en.comments {
        Some(c) => e.fields@[1].name@ == "comments"@ && e.fields@[1].value@ == c@
            && e.fields@[1].inline,
        None => true,
    })
    &&& (match en.source {
        Some(s) => {
            &&& e.fields@[1 + comment_fields].name@ == "source"@
            &&& e.fields@[1 + comment_fields].value@ == s.title@
            &&& e.fields@[1 + comment_fields].inline
            &&& e.fields@[2 + comment_fields].name@ == "source id"@
            &&& e.fields@[2 + comment_fields].value@ == s.id@
            &&& e.fields@[2 + comment_fields].inline
            &&& e.fields@[3 + comment_fields].name@ == "source updated"@
            &&& e.fields@[3 + comment_fields].value@ == crate::discord::decimal_of(
                s.updated as int,
            )
            &&& e.fields@[3 + comment_fields].inline
        },
        None => true,
    })
}

impl Entry {
    /// Render this entry as a platform message (see [`entry_embed_matches`]).
    pub fn to_embed(&self) -> (e: EmbedData)
        ensures
            entry_embed_matches(*self, e),
    {
        let (author_name, author_url): (Option<String>, Option<String>) = match &self.author {
            Some(a) => {
                let name: String = match &a.email {
                    Some(em) => {
                        let mut s = a.name.clone();
                        s.append(" (");
                        s.append(em.as_str());
                        s.append(")");
                        s
                    },
                    None => a.name.clone(),
                };
                (Some(name), crate::feed::clone_opt_string(&a.uri))
            },
            None => (None, None),
        };
        let image: Option<String> = match self.get_enclosure_img() {
            Some(url) => Some(url.to_owned()),
            None => None,
        };
        let description: String = match &self.summary {
            Some(s) => s.clone(),
            None => "(No summary)".to_owned(),
        };
        let link = self.get_link_href().to_owned();
        let mut fields: Vec<EmbedField> = Vec::new();
        fields.push(EmbedField { name: "link".to_owned(), value: link, inline: false });
        if let Some(c) = &self.comments {
            fields.push(
                EmbedField { name: "comments".to_owned(), value: c.clone(), inline: true },
            );
        }
        if let Some(s) = &self.source {
            fields.push(
                EmbedField { name: "source".to_owned(), value: s.title.clone(), inline: true },
            );
            fields.push(
                EmbedField { name: "source id".to_owned(), value: s.id.clone(), inline: true },
            );
            fields.push(
                EmbedField {
                    name: "source updated".to_owned(),
                    value: crate::discord::i64_to_string(s.updated),
                    inline: true,
                },
            );
        }
        EmbedData {
            author_name,
            author_url,
            image,
            title: self.title.clone(),
            timestamp: self.published,
            description,
            fields,
        }
    }
}

/// The normalized form of an entry id: a video-platform id `yt:video:<v>`
/// becomes the watch URL for `<v>`; every other id stays as it is.
pub open spec fn normalized_id(s: Seq<char>) -> Seq<char> {
    if "yt:video:"@.is_prefix_of(s) {
        "https://youtube.com/watch?v="@ + s.skip(9)
    } else {
        s
    }
}

/// Normalize an entry id (see [`normalized_id`]).
pub fn normalize_entry_id(id: &str) -> (r: String)
    ensures
        r@ == normalized_id(id@),
{
    proof {
        reveal_strlit("yt:video:");
    }
    let n: usize = id.unicode_len();
    if n >= 9 {
        let pre = id.substring_char(0, 9);
        if str_eq(pre, "yt:video:") {
            let mut out = String::from_str("https://youtube.com/watch?v=");
            let rest = id.substring_char(9, n);
            out.append(rest);
            proof {
                assert(id@.skip(9) =~= id@.subrange(9, n as int));
            }
            return out;
        }
    }
    id.to_owned()
}

impl AtomFeed {
    /// Eligibility of this feed at time `now`.
    pub open spec fn due_spec(&self, now: i64) -> bool {
        due_at(self.last_updated, self.ttl, self.skip_days@, self.skip_hours@, now)
    }

    /// Decide whether this feed should be fetched at time `now`.  Always true
    /// when the feed was never updated.
    pub fn should_update_at(&self, now: i64) -> (r: bool)
        requires
            0 <= now,
        ensures
            r == self.due_spec(now),
            self.last_updated is None ==> r,
    {
        crate::feed::rss::is_due_at(
            &self.last_updated,
            &self.ttl,
            &self.skip_days,
            &self.skip_hours,
            now,
        )
    }

    /// Decide whether this feed should be fetched now, against the wall
    /// clock.  The verdict is the policy's answer for some valid present
    /// instant; always true when the feed was never updated.
    pub fn should_update(&self) -> (r: bool)
        ensures
            exists|now: i64| 0 <= now && r == self.due_spec(now),
            self.last_updated is None ==> r,
    {
        let now: i64 = crate::clock::current_time();
        self.should_update_at(now)
    }
}

} // verus!
