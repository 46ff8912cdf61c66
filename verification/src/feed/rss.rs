//! The RSS side of the feed model, plus the poll-eligibility policy shared
//! with Atom feeds: a feed is due when it was never fetched, or — outside its
//! skip-days and skip-hours — when its ttl (minutes) has elapsed since the
//! last successful update.
//!
//! Timestamps are seconds since the Unix epoch, in UTC.

use vstd::prelude::*;

use crate::discord::EmbedData;
use crate::discord::EmbedField;

verus! {

/// An RSS feed: a single channel.
#[derive(Clone, Debug, PartialEq, Eq)]
pub struct RssFeed {
    pub channel: RssChannel,
}

/// An RSS channel and its items.
#[derive(Clone, Debug, PartialEq, Eq)]
pub struct RssChannel {
    pub title: String,
    pub description: String,
    pub link: String,
    pub url: String,
    pub copyright: Option<String>,
    pub managing_editor: Option<String>,
    pub web_master: Option<String>,
    pub pub_date: Option<i64>,
    pub category: Vec<Category>,
    pub docs: Option<String>,
    pub ttl: Option<usize>,
    pub image: Option<String>,
    pub skip_hours: Vec<Hour>,
    pub skip_days: Vec<Day>,
    pub item: Vec<RssItem>,
    pub last_updated: Option<i64>,
    pub discord_category: Option<String>,
}

/// One RSS item; its identity within a feed is its link.
#[derive(Clone, Debug, PartialEq, Eq)]
pub struct RssItem {
    pub title: Option<String>,
    pub link: String,
    pub description: String,
    pub date: Option<i64>,
    pub author: Option<String>,
    pub category: Vec<Category>,
    pub comments: Option<String>,
    pub enclosure: Option<Enclosure>,
    pub guid: Option<String>,
    pub source: Option<Source>,
    pub read: bool,
}

/// A category tag on a channel or item.
#[derive(Clone, Debug, PartialEq, Eq)]
pub struct Category {
    pub domain: Option<String>,
    pub value: Option<String>,
}

/// An hour of the day (0..=23) during which a feed asks not to be fetched.
#[derive(Clone, Copy, Debug, PartialEq, Eq, Structural)]
pub struct Hour {
    pub hour: u8,
}

/// A weekday on which a feed asks not to be fetched.
#[derive(Clone, Copy, Debug, PartialEq, Eq, Structural)]
pub struct Day {
    pub day: DaysOfWeek,
}

/// The days of the week.
#[derive(Clone, Copy, Debug, PartialEq, Eq, Structural)]
pub enum DaysOfWeek {
    Monday,
    Tuesday,
    Wednesday,
    Thursday,
    Friday,
    Saturday,
    Sunday,
}

/// A media enclosure attached to an item.
#[derive(Clone, Debug, PartialEq, Eq)]
pub struct Enclosure {
    pub url: String,
    pub length: u64,
    pub content_type: String,
}

/// The source channel an item was forwarded from.
#[derive(Clone, Debug, PartialEq, Eq)]
pub struct Source {
    pub url: String,
    pub source: String,
}

/// How the rendered embed reflects an RSS item: the item's author, its
/// enclosure when that is an image, its title (or a placeholder), its date,
/// its description, then a link field, a comments field when present, and the
/// source's name and URL when present.
pub open spec fn rss_embed_matches(it: RssItem, e: EmbedData) -> bool {
    let comment_fields: int = if it.comments is Some {
        1int
    } else {
        0int
    };
    &&& crate::feed::opt_view(e.author_name) == crate::feed::opt_view(it.author)
    &&& e.author_url is None
    &&& crate::feed::opt_view(e.image) == (match it.enclosure {
        Some(enc) => if crate::feed::is_image_mime(enc.content_type@) {
            Some(enc.url@)
        } else {
            None
        },
        None => None,
    })
    &&& e.title@ == (match it.title {
        Some(t) => t@,
        None => "(Untitled)"@,
    })
    &&& e.timestamp == it.date
    &&& e.description@ == it.description@
    &&& e.fields@.len() == 1 + comment_fields + (if it.source is Some {
        2int
    } else {
        0int
    })
    &&& e.fields@[0].name@ == "link"@
    &&& e.fields@[0].value@ == it.link@
    &&& e.fields@[0].inline == false
    &&& (match it.comments {
        Some(c) => e.fields@[1].name@ == "comments"@ && e.fields@[1].value@ == c@
            && e.fields@[1].inline,
        None => true,
    })
    &&& (match it.source {
        Some(s) => {
            &&& e.fields@[1 + comment_fields].name@ == "source"@
            &&& e.fields@[1 + comment_fields].value@ == s.source@
            &&& e.fields@[1 + comment_fields].inline
            &&& e.fields@[2 + comment_fields].name@ == "source url"@
            &&& e.fields@[2 + comment_fields].value@ == s.url@
            &&& e.fields@[2 + comment_fields].inline
        },
        None => true,
    })
}

impl RssItem {
    /// Render this item as a platform message (see [`rss_embed_matches`]).
    pub fn to_embed(&self) -> (e: EmbedData)
        ensures
            rss_embed_matches(*self, e),
    {
        let image: Option<String> = match &self.enclosure {
            Some(enc) => {
                if crate::feed::is_image_mime_type(enc.content_type.as_str()) {
                    Some(enc.url.clone())
                } else {
                    None
                }
            },
            None => None,
        };
        let title: String = match &self.title {
            Some(t) => t.clone(),
            None => "(Untitled)".to_owned(),
        };
        let mut fields: Vec<EmbedField> = Vec::new();
        fields.push(
            EmbedField { name: "link".to_owned(), value: self.link.clone(), inline: false },
        );
        if let Some(c) = &self.comments {
            fields.push(
                EmbedField { name: "comments".to_owned(), value: c.clone(), inline: true },
            );
        }
        if let Some(s) = &self.source {
            fields.push(
                EmbedField { name: "source".to_owned(), value: s.source.clone(), inline: true },
            );
            fields.push(
                EmbedField { name: "source url".to_owned(), value: s.url.clone(), inline: true },
            );
        }
        EmbedData {
            author_name: crate::feed::clone_opt_string(&self.author),
            author_url: None,
            image,
            title,
            timestamp: self.date,
            description: self.description.clone(),
            fields,
        }
    }
}

/// Weekday of a Unix timestamp (day 0, 1970-01-01, was a Thursday).
pub open spec fn day_of_unix(now: i64) -> DaysOfWeek {
    let idx = ((now as int) / 86400 + 3) % 7;
    if idx == 0 {
        DaysOfWeek::Monday
    } else if idx == 1 {
        DaysOfWeek::Tuesday
    } else if idx == 2 {
        DaysOfWeek::Wednesday
    } else if idx == 3 {
        DaysOfWeek::Thursday
    } else if idx == 4 {
        DaysOfWeek::Friday
    } else if idx == 5 {
        DaysOfWeek::Saturday
    } else {
        DaysOfWeek::Sunday
    }
}

/// Hour of the day (UTC) of a Unix timestamp.
pub open spec fn hour_of_unix(now: i64) -> int {
    ((now as int) % 86400) / 3600
}

/// Weekday of a Unix timestamp, executable form.
pub fn weekday_of(now: i64) -> (d: DaysOfWeek)
    requires
        0 <= now,
    ensures
        d == day_of_unix(now),
{
    let idx: i64 = ((now / 86400) + 3) % 7;
    if idx == 0 {
        DaysOfWeek::Monday
    } else if idx == 1 {
        DaysOfWeek::Tuesday
    } else if idx == 2 {
        DaysOfWeek::Wednesday
    } else if idx == 3 {
        DaysOfWeek::Thursday
    } else if idx == 4 {
        DaysOfWeek::Friday
    } else if idx == 5 {
        DaysOfWeek::Saturday
    } else {
        DaysOfWeek::Sunday
    }
}

/// Hour of the day (UTC) of a Unix timestamp, executable form.
pub fn hour_of(now: i64) -> (h: u8)
    requires
        0 <= now,
    ensures
        h as int == hour_of_unix(now),
        h < 24,
{
    let h: i64 = (now % 86400) / 3600;
    h as u8
}

/// True when some skip-day entry names this weekday.
pub open spec fn skips_day(days: Seq<Day>, d: DaysOfWeek) -> bool {
    exists|i: int| 0 <= i < days.len() && days[i].day == d
}

/// True when some skip-hour entry names this hour.
pub open spec fn skips_hour(hours: Seq<Hour>, h: int) -> bool {
    exists|i: int| 0 <= i < hours.len() && hours[i].hour as int == h
}

/// The poll-eligibility policy: never fetched means due; a skip-day or
/// skip-hour match means not due; otherwise a feed with a ttl is due once
/// `ttl` minutes have passed since the last update, and a feed without a ttl
/// is always due.
pub open spec fn due_at(
    last_updated: Option<i64>,
    ttl: Option<usize>,
    skip_days: Seq<Day>,
    skip_hours: Seq<Hour>,
    now: i64,
) -> bool {
    match last_updated {
        None => true,
        Some(last) => {
            if skips_day(skip_days, day_of_unix(now)) {
                false
            } else if skips_hour(skip_hours, hour_of_unix(now)) {
                false
            } else {
                match ttl {
                    Some(t) => now - last >= t * 60,
                    None => true,
                }
            }
        },
    }
}

/// True when some entry of `days` names `d`.
pub fn contains_day(days: &Vec<Day>, d: DaysOfWeek) -> (r: bool)
    ensures
        r == skips_day(days@, d),
{
    let mut i: usize = 0;
    while i < days.len()
        invariant
            i <= days@.len(),
            forall|j: int| 0 <= j < i ==> #[trigger] days@[j].day != d,
        decreases days@.len() - i,
    {
        if days[i].day == d {
            return true;
        }
        i = i + 1;
    }
    false
}

/// True when some entry of `hours` names `h`.
pub fn contains_hour(hours: &Vec<Hour>, h: u8) -> (r: bool)
    ensures
        r == skips_hour(hours@, h as int),
{
    let mut i: usize = 0;
    while i < hours.len()
        invariant
            i <= hours@.len(),
            forall|j: int| 0 <= j < i ==> #[trigger] hours@[j].hour != h,
        decreases hours@.len() - i,
    {
        if hours[i].hour == h {
            return true;
        }
        i = i + 1;
    }
    false
}

/// Decide eligibility, executable form of [`due_at`].
pub fn is_due_at(
    last_updated: &Option<i64>,
    ttl: &Option<usize>,
    skip_days: &Vec<Day>,
    skip_hours: &Vec<Hour>,
    now: i64,
) -> (r: bool)
    requires
        0 <= now,
    ensures
        r == due_at(*last_updated, *ttl, skip_days@, skip_hours@, now),
{
    match last_updated {
        None => true,
        Some(last) => {
            if contains_day(skip_days, weekday_of(now)) {
                false
            } else if contains_hour(skip_hours, hour_of(now)) {
                false
            } else {
                match ttl {
                    Some(t) => (now as i128) - (*last as i128) >= (*t as i128) * 60,
                    None => true,
                }
            }
        },
    }
}

impl RssFeed {
    /// Eligibility of this feed at time `now`.
    pub open spec fn due_spec(&self, now: i64) -> bool {
        due_at(
            self.channel.last_updated,
            self.channel.ttl,
            self.channel.skip_days@,
            self.channel.skip_hours@,
            now,
        )
    }

    /// Decide whether this feed should be fetched at time `now`.  Always true
    /// when the feed was never updated.
    pub fn should_update_at(&self, now: i64) -> (r: bool)
        requires
            0 <= now,
        ensures
            r == self.due_spec(now),
            self.channel.last_updated is None ==> r,
    {
        is_due_at(
            &self.channel.last_updated,
            &self.channel.ttl,
            &self.channel.skip_days,
            &self.channel.skip_hours,
            now,
        )
    }

    /// Decide whether this feed should be fetched now, against the wall
    /// clock.  The verdict is the policy's answer for some valid present
    /// instant; always true when the feed was never updated.
    pub fn should_update(&self) -> (r: bool)
        ensures
            exists|now: i64| 0 <= now && r == self.due_spec(now),
            self.channel.last_updated is None ==> r,
    {
        let now: i64 = crate::clock::current_time();
        self.should_update_at(now)
    }
}

} // verus!
