//! The feed model: a subscribed feed is either RSS or Atom, is identified by
//! its URL, and carries a title, an optional category label, scheduling
//! metadata, and its items.

use vstd::prelude::*;

pub mod atom;
pub mod rss;

use atom::AtomFeed;
use rss::RssChannel;
use rss::RssFeed;

verus! {

/// A subscribed feed: RSS or Atom.
#[derive(Clone, Debug, PartialEq, Eq)]
pub enum Feed {
    Rss(RssFeed),
    Atom(AtomFeed),
}

/// The view of an optional string: the character sequence, when present.
pub open spec fn opt_view(o: Option<String>) -> Option<Seq<char>> {
    match o {
        Some(s) => Some(s@),
        None => None,
    }
}

/// Clone an optional string.
pub fn clone_opt_string(o: &Option<String>) -> (r: Option<String>)
    ensures
        opt_view(r) == opt_view(*o),
{
    match o {
        Some(s) => Some(s.clone()),
        None => None,
    }
}

impl Feed {
    /// The feed's title.
    pub open spec fn title_spec(&self) -> Seq<char> {
        match self {
            Feed::Rss(rss) => rss.channel.title@,
            Feed::Atom(a) => a.title@,
        }
    }

    /// The feed's URL — its identity within the collection.
    pub open spec fn url_spec(&self) -> Seq<char> {
        match self {
            Feed::Rss(rss) => rss.channel.url@,
            Feed::Atom(a) => a.url@,
        }
    }

    /// The feed's description (an Atom feed's subtitle; empty when absent).
    pub open spec fn description_spec(&self) -> Seq<char> {
        match self {
            Feed::Rss(rss) => rss.channel.description@,
            Feed::Atom(a) => match a.subtitle {
                Some(s) => s@,
                None => Seq::<char>::empty(),
            },
        }
    }

    /// The feed's assigned category label, if any.
    pub open spec fn category_spec(&self) -> Option<Seq<char>> {
        match self {
            Feed::Rss(rss) => opt_view(rss.channel.discord_category),
            Feed::Atom(a) => opt_view(a.discord_category),
        }
    }

    /// When the feed was last merged with a fetched snapshot, if ever.
    pub open spec fn last_updated_spec(&self) -> Option<i64> {
        match self {
            Feed::Rss(rss) => rss.channel.last_updated,
            Feed::Atom(a) => a.last_updated,
        }
    }

    /// The feed with its title replaced.
    pub open spec fn with_title(self, title: String) -> Feed {
        match self {
            Feed::Rss(rss) => Feed::Rss(
                RssFeed { channel: (RssChannel { title, ..rss.channel }) },
            ),
            Feed::Atom(a) => Feed::Atom((AtomFeed { title, ..a })),
        }
    }

    /// The feed with its URL replaced.
    pub open spec fn with_url(self, url: String) -> Feed {
        match self {
            Feed::Rss(rss) => Feed::Rss((RssFeed { channel: (RssChannel { url, ..rss.channel }) })),
            Feed::Atom(a) => Feed::Atom((AtomFeed { url, ..a })),
        }
    }

    /// The feed with its category label replaced.
    pub open spec fn with_category(self, category: Option<String>) -> Feed {
        match self {
            Feed::Rss(rss) => Feed::Rss(
                (RssFeed { channel: (RssChannel { discord_category: category, ..rss.channel }) }),
            ),
            Feed::Atom(a) => Feed::Atom((AtomFeed { discord_category: category, ..a })),
        }
    }

    /// The feed's description; an Atom feed without a subtitle gives "".
    pub fn description(&self) -> (r: String)
        ensures
            r@ == self.description_spec(),
    {
        match self {
            Feed::Rss(rss) => rss.channel.description.clone(),
            Feed::Atom(a) => match &a.subtitle {
                Some(s) => s.clone(),
                None => String::new(),
            },
        }
    }

    /// The feed's title.
    pub fn title(&self) -> (r: String)
        ensures
            r@ == self.title_spec(),
    {
        match self {
            Feed::Rss(rss) => rss.channel.title.clone(),
            Feed::Atom(a) => a.title.clone(),
        }
    }

    /// Replace the feed's title; everything else is unchanged.
    pub fn set_title(&mut self, title: String)
        ensures
            *final(self) == old(self).with_title(title),
    {
        match self {
            Feed::Rss(rss) => rss.channel.title = title,
            Feed::Atom(a) => a.title = title,
        }
    }

    /// The feed's URL, borrowed.
    pub fn url_ref(&self) -> (r: &str)
        ensures
            r@ == self.url_spec(),
    {
        match self {
            Feed::Rss(rss) => rss.channel.url.as_str(),
            Feed::Atom(a) => a.url.as_str(),
        }
    }

    /// The feed's title, borrowed.
    pub fn title_ref(&self) -> (r: &str)
        ensures
            r@ == self.title_spec(),
    {
        match self {
            Feed::Rss(rss) => rss.channel.title.as_str(),
            Feed::Atom(a) => a.title.as_str(),
        }
    }

    /// The feed's URL.
    pub fn url(&self) -> (r: String)
        ensures
            r@ == self.url_spec(),
    {
        match self {
            Feed::Rss(rss) => rss.channel.url.clone(),
            Feed::Atom(a) => a.url.clone(),
        }
    }

    /// Replace the feed's URL; everything else is unchanged.
    pub fn set_url(&mut self, url: String)
        ensures
            *final(self) == old(self).with_url(url),
    {
        match self {
            Feed::Rss(rss) => rss.channel.url = url,
            Feed::Atom(a) => a.url = url,
        }
    }

    /// Eligibility of this feed at time `now` (see [`rss::due_at`]).
    pub open spec fn due_spec(&self, now: i64) -> bool {
        match self {
            Feed::Rss(rss) => rss.due_spec(now),
            Feed::Atom(a) => a.due_spec(now),
        }
    }

    /// Decide whether this feed should be fetched at time `now`.  Always true
    /// when the feed was never updated.
    pub fn should_update_at(&self, now: i64) -> (r: bool)
        requires
            0 <= now,
        ensures
            r == self.due_spec(now),
            self.last_updated_spec() is None ==> r,
    {
        match self {
            Feed::Rss(rss) => rss.should_update_at(now),
            Feed::Atom(a) => a.should_update_at(now),
        }
    }

    /// Decide whether this feed should be fetched now, against the wall
    /// clock.  The verdict is the policy's answer for some valid present
    /// instant; always true when the feed was never updated.
    pub fn should_update(&self) -> (r: bool)
        ensures
            exists|now: i64| 0 <= now && r == self.due_spec(now),
            self.last_updated_spec() is None ==> r,
    {
        let now: i64 = crate::clock::current_time();
        self.should_update_at(now)
    }

    /// The feed's assigned category label, if any.
    pub fn discord_category(&self) -> (r: Option<String>)
        ensures
            opt_view(r) == self.category_spec(),
    {
        match self {
            Feed::Rss(rss) => clone_opt_string(&rss.channel.discord_category),
            Feed::Atom(a) => clone_opt_string(&a.discord_category),
        }
    }

    /// Replace the feed's category label; everything else is unchanged.
    pub fn set_discord_category(&mut self, category: &Option<String>)
        ensures
            exists|c: Option<String>|
                opt_view(c) == opt_view(*category) && *final(self) == old(self).with_category(c),
    {
        let c = clone_opt_string(category);
        match self {
            Feed::Rss(rss) => rss.channel.discord_category = c,
            Feed::Atom(a) => a.discord_category = c,
        }
    }
}

/// True of a freshly constructed, entirely empty RSS feed.
pub open spec fn is_empty_rss_feed(r: Feed) -> bool {
    match r {
        Feed::Rss(f) => {
            &&& f.channel.title@ == Seq::<char>::empty()
            &&& f.channel.description@ == Seq::<char>::empty()
            &&& f.channel.link@ == Seq::<char>::empty()
            &&& f.channel.url@ == Seq::<char>::empty()
            &&& f.channel.copyright is None
            &&& f.channel.managing_editor is None
            &&& f.channel.web_master is None
            &&& f.channel.pub_date is None
            &&& f.channel.category@.len() == 0
            &&& f.channel.docs is None
            &&& f.channel.ttl is None
            &&& f.channel.image is None
            &&& f.channel.skip_hours@.len() == 0
            &&& f.channel.skip_days@.len() == 0
            &&& f.channel.item@.len() == 0
            &&& f.channel.last_updated is None
            &&& f.channel.discord_category is None
        },
        Feed::Atom(_) => false,
    }
}

impl Default for Feed {
    /// An empty RSS feed.
    fn default() -> (r: Feed)
        ensures
            is_empty_rss_feed(r),
    {
        Feed::Rss(
            RssFeed {
                channel: RssChannel {
                    title: String::new(),
                    description: String::new(),
                    link: String::new(),
                    url: String::new(),
                    copyright: None,
                    managing_editor: None,
                    web_master: None,
                    pub_date: None,
                    category: Vec::new(),
                    docs: None,
                    ttl: None,
                    image: None,
                    skip_hours: Vec::new(),
                    skip_days: Vec::new(),
                    item: Vec::new(),
                    last_updated: None,
                    discord_category: None,
                },
            },
        )
    }
}

/// Fill the title and category of a freshly fetched feed from the values the
/// caller supplied: an explicit title wins over the fetched one, and the
/// category is taken as given.
pub fn apply_fetch_overrides(feed: &mut Feed, title: Option<String>, category: Option<String>)
    ensures
        *final(feed) == (match title {
            Some(t) => old(feed).with_title(t).with_category(category),
            None => old(feed).with_category(category),
        }),
{
    if let Some(t) = title {
        feed.set_title(t);
    }
    let ghost mid = *feed;
    let c = category;
    match feed {
        Feed::Rss(rss) => rss.channel.discord_category = c,
        Feed::Atom(a) => a.discord_category = c,
    }
    assert(*feed == mid.with_category(category));
}

/// The MIME types rendered as an inline image.
pub open spec fn is_image_mime(s: Seq<char>) -> bool {
    s == "image/jpeg"@ || s == "image/jpg"@ || s == "image/png"@ || s == "image/gif"@
}

/// True when `mime` names an image type an embed can show inline.
pub fn is_image_mime_type(mime: &str) -> (r: bool)
    ensures
        r == is_image_mime(mime@),
{
    crate::discord::str_eq(mime, "image/jpeg") || crate::discord::str_eq(mime, "image/jpg")
        || crate::discord::str_eq(mime, "image/png") || crate::discord::str_eq(mime, "image/gif")
}

} // verus!
