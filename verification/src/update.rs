//! Diff/merge of a freshly fetched feed snapshot against the stored copy.
//!
//! New items are the fetched items whose identity (RSS: link; Atom: entry id)
//! is absent from the stored item list; they are appended in fetched order.
//! Stored items are never overwritten, so their `read` marks survive.  All
//! other feed metadata is replaced wholesale from the snapshot, except the
//! title (only an edit command changes it) and the URL (the identity).
//! `last_updated` is set on every successful merge, new items or not.

use vstd::prelude::*;

use crate::discord::canonical_name;
use crate::discord::read_channel_name;
use crate::discord::read_name;
use crate::discord::str_eq;
use crate::discord::title_to_channel_name;
use crate::feed::atom::AtomFeed;
use crate::feed::atom::Entry;
use crate::feed::rss::RssChannel;
use crate::feed::rss::RssFeed;
use crate::feed::rss::RssItem;
use crate::feed::Feed;

verus! {

/// True when some item of `items` has this link.
pub open spec fn rss_has_link(items: Seq<RssItem>, link: Seq<char>) -> bool {
    exists|i: int| 0 <= i < items.len() && items[i].link@ == link
}

/// The fetched items whose link is absent from `stored`, in fetched order.
pub open spec fn rss_new_items(stored: Seq<RssItem>, fetched: Seq<RssItem>) -> Seq<RssItem>
    decreases fetched.len(),
{
    if fetched.len() == 0 {
        Seq::<RssItem>::empty()
    } else {
        let rest = rss_new_items(stored, fetched.drop_last());
        if rss_has_link(stored, fetched.last().link@) {
            rest
        } else {
            rest.push(fetched.last())
        }
    }
}

/// True when some entry of `entries` has this id.
pub open spec fn atom_has_id(entries: Seq<Entry>, id: Seq<char>) -> bool {
    exists|i: int| 0 <= i < entries.len() && entries[i].id@ == id
}

/// The fetched entries whose id is absent from `stored`, in fetched order.
pub open spec fn atom_new_entries(stored: Seq<Entry>, fetched: Seq<Entry>) -> Seq<Entry>
    decreases fetched.len(),
{
    if fetched.len() == 0 {
        Seq::<Entry>::empty()
    } else {
        let rest = atom_new_entries(stored, fetched.drop_last());
        if atom_has_id(stored, fetched.last().id@) {
            rest
        } else {
            rest.push(fetched.last())
        }
    }
}

/// True when one of the first `upto` items of `items` has this link.
fn rss_contains_link_upto(items: &Vec<RssItem>, upto: usize, link: &str) -> (r: bool)
    requires
        upto <= items@.len(),
    ensures
        r == rss_has_link(items@.subrange(0, upto as int), link@),
{
    let ghost pre = items@.subrange(0, upto as int);
    let mut i: usize = 0;
    while i < upto
        invariant
            i <= upto <= items@.len(),
            pre == items@.subrange(0, upto as int),
            forall|j: int| 0 <= j < i ==> #[trigger] items@[j].link@ != link@,
        decreases upto - i,
    {
        if str_eq(items[i].link.as_str(), link) {
            assert(pre[i as int].link@ == link@);
            return true;
        }
        i = i + 1;
    }
    assert(forall|j: int| 0 <= j < pre.len() ==> #[trigger] pre[j].link@ != link@);
    false
}

/// True when one of the first `upto` entries of `entries` has this id.
fn atom_contains_id_upto(entries: &Vec<Entry>, upto: usize, id: &str) -> (r: bool)
    requires
        upto <= entries@.len(),
    ensures
        r == atom_has_id(entries@.subrange(0, upto as int), id@),
{
    let ghost pre = entries@.subrange(0, upto as int);
    let mut i: usize = 0;
    while i < upto
        invariant
            i <= upto <= entries@.len(),
            pre == entries@.subrange(0, upto as int),
            forall|j: int| 0 <= j < i ==> #[trigger] entries@[j].id@ != id@,
        decreases upto - i,
    {
        if str_eq(entries[i].id.as_str(), id) {
            assert(pre[i as int].id@ == id@);
            return true;
        }
        i = i + 1;
    }
    assert(forall|j: int| 0 <= j < pre.len() ==> #[trigger] pre[j].id@ != id@);
    false
}

/// What a successful RSS merge leaves behind: old items plus the new ones,
/// identity and title untouched, metadata from the snapshot, `last_updated`
/// refreshed.
pub open spec fn rss_merge_post(stored: RssFeed, merged: RssFeed, fetched: RssFeed, now: i64) -> bool {
    &&& merged.channel.item@ == stored.channel.item@ + rss_new_items(
        stored.channel.item@,
        fetched.channel.item@,
    )
    &&& merged.channel.title == stored.channel.title
    &&& merged.channel.link == stored.channel.link
    &&& merged.channel.url == stored.channel.url
    &&& merged.channel.discord_category == stored.channel.discord_category
    &&& merged.channel.description == fetched.channel.description
    &&& merged.channel.copyright == fetched.channel.copyright
    &&& merged.channel.managing_editor == fetched.channel.managing_editor
    &&& merged.channel.web_master == fetched.channel.web_master
    &&& merged.channel.pub_date == fetched.channel.pub_date
    &&& merged.channel.category == fetched.channel.category
    &&& merged.channel.docs == fetched.channel.docs
    &&& merged.channel.ttl == fetched.channel.ttl
    &&& merged.channel.image == fetched.channel.image
    &&& merged.channel.skip_hours == fetched.channel.skip_hours
    &&& merged.channel.skip_days == fetched.channel.skip_days
    &&& merged.channel.last_updated == Some(now)
}

/// What a successful Atom merge leaves behind, in the same shape.
pub open spec fn atom_merge_post(stored: AtomFeed, merged: AtomFeed, fetched: AtomFeed, now: i64) -> bool {
    &&& merged.entry@ == stored.entry@ + atom_new_entries(stored.entry@, fetched.entry@)
    &&& merged.title == stored.title
    &&& merged.url == stored.url
    &&& merged.discord_category == stored.discord_category
    &&& merged.id == fetched.id
    &&& merged.updated == fetched.updated
    &&& merged.author == fetched.author
    &&& merged.link == fetched.link
    &&& merged.category == fetched.category
    &&& merged.icon == fetched.icon
    &&& merged.logo == fetched.logo
    &&& merged.rights == fetched.rights
    &&& merged.subtitle == fetched.subtitle
    &&& merged.ttl == fetched.ttl
    &&& merged.skip_days == fetched.skip_days
    &&& merged.skip_hours == fetched.skip_hours
    &&& merged.last_updated == Some(now)
}

/// Merge a fetched RSS snapshot into the stored feed; returns the index at
/// which the newly appended items start.
pub fn merge_rss_feed(stored: &mut RssFeed, fetched: RssFeed, now: i64) -> (new_start: usize)
    ensures
        rss_merge_post(*old(stored), *final(stored), fetched, now),
        new_start == old(stored).channel.item@.len(),
{
    let ghost old_items = stored.channel.item@;
    let ghost fetched_items = fetched.channel.item@;
    let old_len: usize = stored.channel.item.len();

    let RssFeed { channel } = fetched;
    let RssChannel {
        title: _,
        description,
        link: _,
        url: _,
        copyright,
        managing_editor,
        web_master,
        pub_date,
        category,
        docs,
        ttl,
        image,
        skip_hours,
        skip_days,
        item: mut incoming,
        last_updated: _,
        discord_category: _,
    } = channel;

    // Reverse the fetched items so they can be consumed front to back by pop.
    let n: usize = incoming.len();
    let mut rev: Vec<RssItem> = Vec::new();
    while incoming.len() > 0
        invariant
            n == fetched_items.len(),
            incoming@.len() + rev@.len() == n,
            incoming@ == fetched_items.subrange(0, incoming@.len() as int),
            forall|j: int| 0 <= j < rev@.len() ==> rev@[j] == fetched_items[n - 1 - j],
        decreases incoming@.len(),
    {
        let it = incoming.pop().unwrap();
        assert(it == fetched_items[incoming@.len() as int]);
        assert(incoming@ =~= fetched_items.subrange(0, incoming@.len() as int));
        rev.push(it);
    }

    let mut k: usize = 0;
    while rev.len() > 0
        invariant
            k + rev@.len() == n,
            n == fetched_items.len(),
            old_len == old_items.len(),
            forall|j: int| 0 <= j < rev@.len() ==> rev@[j] == fetched_items[n - 1 - j],
            stored.channel.item@ == old_items + rss_new_items(
                old_items,
                fetched_items.subrange(0, k as int),
            ),
            stored.channel.title == old(stored).channel.title,
            stored.channel.link == old(stored).channel.link,
            stored.channel.url == old(stored).channel.url,
            stored.channel.discord_category == old(stored).channel.discord_category,
            stored.channel.description == old(stored).channel.description,
            stored.channel.copyright == old(stored).channel.copyright,
            stored.channel.managing_editor == old(stored).channel.managing_editor,
            stored.channel.web_master == old(stored).channel.web_master,
            stored.channel.pub_date == old(stored).channel.pub_date,
            stored.channel.category == old(stored).channel.category,
            stored.channel.docs == old(stored).channel.docs,
            stored.channel.ttl == old(stored).channel.ttl,
            stored.channel.image == old(stored).channel.image,
            stored.channel.skip_hours == old(stored).channel.skip_hours,
            stored.channel.skip_days == old(stored).channel.skip_days,
            stored.channel.last_updated == old(stored).channel.last_updated,
        decreases rev@.len(),
    {
        let it = rev.pop().unwrap();
        assert(it == fetched_items[k as int]);
        let ghost step = fetched_items.subrange(0, k as int + 1);
        proof {
            assert(step.drop_last() =~= fetched_items.subrange(0, k as int));
            assert(step.last() == fetched_items[k as int]);
            assert(stored.channel.item@.subrange(0, old_len as int) =~= old_items);
        }
        let fresh = !rss_contains_link_upto(&stored.channel.item, old_len, it.link.as_str());
        if fresh {
            stored.channel.item.push(it);
        }
        k = k + 1;
    }
    assert(fetched_items.subrange(0, n as int) =~= fetched_items);

    stored.channel.description = description;
    stored.channel.copyright = copyright;
    stored.channel.managing_editor = managing_editor;
    stored.channel.web_master = web_master;
    stored.channel.pub_date = pub_date;
    stored.channel.category = category;
    stored.channel.docs = docs;
    stored.channel.ttl = ttl;
    stored.channel.image = image;
    stored.channel.skip_hours = skip_hours;
    stored.channel.skip_days = skip_days;
    stored.channel.last_updated = Some(now);

    old_len
}

/// Merge a fetched Atom snapshot into the stored feed; returns the index at
/// which the newly appended entries start.
pub fn merge_atom_feed(stored: &mut AtomFeed, fetched: AtomFeed, now: i64) -> (new_start: usize)
    ensures
        atom_merge_post(*old(stored), *final(stored), fetched, now),
        new_start == old(stored).entry@.len(),
{
    let ghost old_entries = stored.entry@;
    let ghost fetched_entries = fetched.entry@;
    let old_len: usize = stored.entry.len();

    let AtomFeed {
        id,
        title: _,
        updated,
        author,
        link,
        category,
        icon,
        logo,
        rights,
        subtitle,
        entry: mut incoming,
        ttl,
        skip_days,
        skip_hours,
        last_updated: _,
        url: _,
        discord_category: _,
    } = fetched;

    let n: usize = incoming.len();
    let mut rev: Vec<Entry> = Vec::new();
    while incoming.len() > 0
        invariant
            n == fetched_entries.len(),
            incoming@.len() + rev@.len() == n,
            incoming@ == fetched_entries.subrange(0, incoming@.len() as int),
            forall|j: int| 0 <= j < rev@.len() ==> rev@[j] == fetched_entries[n - 1 - j],
        decreases incoming@.len(),
    {
        let it = incoming.pop().unwrap();
        assert(it == fetched_entries[incoming@.len() as int]);
        assert(incoming@ =~= fetched_entries.subrange(0, incoming@.len() as int));
        rev.push(it);
    }

    let mut k: usize = 0;
    while rev.len() > 0
        invariant
            k + rev@.len() == n,
            n == fetched_entries.len(),
            old_len == old_entries.len(),
            forall|j: int| 0 <= j < rev@.len() ==> rev@[j] == fetched_entries[n - 1 - j],
            stored.entry@ == old_entries + atom_new_entries(
                old_entries,
                fetched_entries.subrange(0, k as int),
            ),
            stored.title == old(stored).title,
            stored.url == old(stored).url,
            stored.discord_category == old(stored).discord_category,
            stored.id == old(stored).id,
            stored.updated == old(stored).updated,
            stored.author == old(stored).author,
            stored.link == old(stored).link,
            stored.category == old(stored).category,
            stored.icon == old(stored).icon,
            stored.logo == old(stored).logo,
            stored.rights == old(stored).rights,
            stored.subtitle == old(stored).subtitle,
            stored.ttl == old(stored).ttl,
            stored.skip_days == old(stored).skip_days,
            stored.skip_hours == old(stored).skip_hours,
            stored.last_updated == old(stored).last_updated,
        decreases rev@.len(),
    {
        let it = rev.pop().unwrap();
        assert(it == fetched_entries[k as int]);
        let ghost step = fetched_entries.subrange(0, k as int + 1);
        proof {
            assert(step.drop_last() =~= fetched_entries.subrange(0, k as int));
            assert(step.last() == fetched_entries[k as int]);
            assert(stored.entry@.subrange(0, old_len as int) =~= old_entries);
        }
        let fresh = !atom_contains_id_upto(&stored.entry, old_len, it.id.as_str());
        if fresh {
            stored.entry.push(it);
        }
        k = k + 1;
    }
    assert(fetched_entries.subrange(0, n as int) =~= fetched_entries);

    stored.id = id;
    stored.updated = updated;
    stored.author = author;
    stored.link = link;
    stored.category = category;
    stored.icon = icon;
    stored.logo = logo;
    stored.rights = rights;
    stored.subtitle = subtitle;
    stored.ttl = ttl;
    stored.skip_days = skip_days;
    stored.skip_hours = skip_hours;
    stored.last_updated = Some(now);

    old_len
}

/// After one merge, every fetched link is present in the merged item list.
proof fn lemma_rss_all_fetched_present(stored: Seq<RssItem>, fetched: Seq<RssItem>)
    ensures
        forall|j: int|
            0 <= j < fetched.len() ==> rss_has_link(
                stored + rss_new_items(stored, fetched),
                #[trigger] fetched[j].link@,
            ),
    decreases fetched.len(),
{
    if fetched.len() > 0 {
        let f1 = fetched.drop_last();
        let x = fetched.last();
        lemma_rss_all_fetched_present(stored, f1);
        let ni1 = rss_new_items(stored, f1);
        let ni = rss_new_items(stored, fetched);
        assert forall|j: int|
            0 <= j < fetched.len() implies rss_has_link(
            stored + ni,
            #[trigger] fetched[j].link@,
        ) by {
            if j < f1.len() {
                assert(f1[j] == fetched[j]);
                assert(rss_has_link(stored + ni1, fetched[j].link@));
                let i = choose|i: int|
                    0 <= i < (stored + ni1).len() && (stored + ni1)[i].link@ == fetched[j].link@;
                assert((stored + ni)[i] == (stored + ni1)[i]);
            } else {
                if rss_has_link(stored, x.link@) {
                    let i = choose|i: int| 0 <= i < stored.len() && stored[i].link@ == x.link@;
                    assert((stored + ni)[i].link@ == x.link@);
                } else {
                    assert(ni == ni1.push(x));
                    assert((stored + ni)[stored.len() as int + ni1.len() as int] == x);
                }
            }
        }
    }
}

/// A fetch whose links are all already present contributes no new items.
proof fn lemma_rss_no_new_when_present(stored: Seq<RssItem>, fetched: Seq<RssItem>)
    requires
        forall|j: int| 0 <= j < fetched.len() ==> rss_has_link(stored, #[trigger] fetched[j].link@),
    ensures
        rss_new_items(stored, fetched) == Seq::<RssItem>::empty(),
    decreases fetched.len(),
{
    if fetched.len() > 0 {
        let f1 = fetched.drop_last();
        assert(forall|j: int| 0 <= j < f1.len() ==> #[trigger] f1[j] == fetched[j]);
        lemma_rss_no_new_when_present(stored, f1);
        assert(rss_has_link(stored, fetched.last().link@));
    }
}

/// After one merge, every fetched entry id is present in the merged list.
proof fn lemma_atom_all_fetched_present(stored: Seq<Entry>, fetched: Seq<Entry>)
    ensures
        forall|j: int|
            0 <= j < fetched.len() ==> atom_has_id(
                stored + atom_new_entries(stored, fetched),
                #[trigger] fetched[j].id@,
            ),
    decreases fetched.len(),
{
    if fetched.len() > 0 {
        let f1 = fetched.drop_last();
        let x = fetched.last();
        lemma_atom_all_fetched_present(stored, f1);
        let ni1 = atom_new_entries(stored, f1);
        let ni = atom_new_entries(stored, fetched);
        assert forall|j: int|
            0 <= j < fetched.len() implies atom_has_id(
            stored + ni,
            #[trigger] fetched[j].id@,
        ) by {
            if j < f1.len() {
                assert(f1[j] == fetched[j]);
                assert(atom_has_id(stored + ni1, fetched[j].id@));
                let i = choose|i: int|
                    0 <= i < (stored + ni1).len() && (stored + ni1)[i].id@ == fetched[j].id@;
                assert((stored + ni)[i] == (stored + ni1)[i]);
            } else {
                if atom_has_id(stored, x.id@) {
                    let i = choose|i: int| 0 <= i < stored.len() && stored[i].id@ == x.id@;
                    assert((stored + ni)[i].id@ == x.id@);
                } else {
                    assert(ni == ni1.push(x));
                    assert((stored + ni)[stored.len() as int + ni1.len() as int] == x);
                }
            }
        }
    }
}

/// A fetch whose ids are all already present contributes no new entries.
proof fn lemma_atom_no_new_when_present(stored: Seq<Entry>, fetched: Seq<Entry>)
    requires
        forall|j: int| 0 <= j < fetched.len() ==> atom_has_id(stored, #[trigger] fetched[j].id@),
    ensures
        atom_new_entries(stored, fetched) == Seq::<Entry>::empty(),
    decreases fetched.len(),
{
    if fetched.len() > 0 {
        let f1 = fetched.drop_last();
        assert(forall|j: int| 0 <= j < f1.len() ==> #[trigger] f1[j] == fetched[j]);
        lemma_atom_no_new_when_present(stored, f1);
        assert(atom_has_id(stored, fetched.last().id@));
    }
}

/// Law: merging the same fetched snapshot a second time adds no items — the
/// item list stays as it was after the first merge — while `last_updated` is
/// still refreshed to the second merge's time.
pub proof fn lemma_rss_merge_twice_adds_nothing(
    stored: RssFeed,
    once: RssFeed,
    twice: RssFeed,
    fetched: RssFeed,
    now1: i64,
    now2: i64,
)
    requires
        rss_merge_post(stored, once, fetched, now1),
        rss_merge_post(once, twice, fetched, now2),
    ensures
        twice.channel.item@ == once.channel.item@,
        twice.channel.last_updated == Some(now2),
{
    lemma_rss_all_fetched_present(stored.channel.item@, fetched.channel.item@);
    lemma_rss_no_new_when_present(once.channel.item@, fetched.channel.item@);
    assert(twice.channel.item@ =~= once.channel.item@);
}

/// Law: merging the same fetched snapshot a second time adds no entries,
/// while `last_updated` is still refreshed to the second merge's time.
pub proof fn lemma_atom_merge_twice_adds_nothing(
    stored: AtomFeed,
    once: AtomFeed,
    twice: AtomFeed,
    fetched: AtomFeed,
    now1: i64,
    now2: i64,
)
    requires
        atom_merge_post(stored, once, fetched, now1),
        atom_merge_post(once, twice, fetched, now2),
    ensures
        twice.entry@ == once.entry@,
        twice.last_updated == Some(now2),
{
    lemma_atom_all_fetched_present(stored.entry@, fetched.entry@);
    lemma_atom_no_new_when_present(once.entry@, fetched.entry@);
    assert(twice.entry@ =~= once.entry@);
}

/// A merge error: the stored feed and the fetched snapshot are not of the
/// same kind (one RSS, one Atom).
#[derive(Clone, Copy, Debug, PartialEq, Eq, Structural)]
pub enum MergeError {
    VariantMismatch,
}

/// What a successful merge of a fetched snapshot into a stored feed leaves
/// behind, whichever kind the two share.
pub open spec fn merge_post(stored: Feed, merged: Feed, fetched: Feed, now: i64) -> bool {
    match (stored, fetched) {
        (Feed::Rss(s), Feed::Rss(f)) => match merged {
            Feed::Rss(m) => rss_merge_post(s, m, f, now),
            Feed::Atom(_) => false,
        },
        (Feed::Atom(s), Feed::Atom(f)) => match merged {
            Feed::Atom(m) => atom_merge_post(s, m, f, now),
            Feed::Rss(_) => false,
        },
        _ => false,
    }
}

/// Law: at the feed level too, merging the same snapshot twice leaves the
/// item list exactly as after the first merge, and refreshes `last_updated`.
pub proof fn lemma_merge_twice_adds_nothing(
    stored: Feed,
    once: Feed,
    twice: Feed,
    fetched: Feed,
    now1: i64,
    now2: i64,
)
    requires
        merge_post(stored, once, fetched, now1),
        merge_post(once, twice, fetched, now2),
    ensures
        match (once, twice) {
            (Feed::Rss(a), Feed::Rss(b)) => b.channel.item@ == a.channel.item@
                && b.channel.last_updated == Some(now2),
            (Feed::Atom(a), Feed::Atom(b)) => b.entry@ == a.entry@ && b.last_updated == Some(now2),
            _ => false,
        },
{
    match (stored, fetched) {
        (Feed::Rss(s), Feed::Rss(f)) => {
            let a = once->Rss_0;
            let b = twice->Rss_0;
            lemma_rss_merge_twice_adds_nothing(s, a, b, f, now1, now2);
        },
        (Feed::Atom(s), Feed::Atom(f)) => {
            let a = once->Atom_0;
            let b = twice->Atom_0;
            lemma_atom_merge_twice_adds_nothing(s, a, b, f, now1, now2);
        },
        _ => {
            assert(false);
        },
    }
}

/// Merge a fetched snapshot into a stored feed of the same kind; rejected —
/// with the stored feed untouched — exactly when the kinds differ.
pub fn merge_feed(stored: &mut Feed, fetched: Feed, now: i64) -> (r: Result<usize, MergeError>)
    ensures
        match r {
            Ok(new_start) => merge_post(*old(stored), *final(stored), fetched, now),
            Err(_) => *final(stored) == *old(stored) && ((*old(stored) is Rss) != (fetched is Rss)),
        },
        (r is Err) == ((*old(stored) is Rss) != (fetched is Rss)),
{
    match (stored, fetched) {
        (Feed::Rss(s), Feed::Rss(f)) => Ok(merge_rss_feed(s, f, now)),
        (Feed::Atom(s), Feed::Atom(f)) => Ok(merge_atom_feed(s, f, now)),
        _ => Err(MergeError::VariantMismatch),
    }
}

/// True when some stored feed has this URL.
pub open spec fn has_feed_url(feeds: Seq<Feed>, url: Seq<char>) -> bool {
    exists|i: int| 0 <= i < feeds.len() && feeds[i].url_spec() == url
}

/// The collection invariant: no two feeds share a URL.
pub open spec fn urls_unique(feeds: Seq<Feed>) -> bool {
    forall|i: int, j: int|
        0 <= i < j < feeds.len() ==> #[trigger] feeds[i].url_spec() != #[trigger] feeds[j].url_spec()
}

/// True when some stored feed has this URL.
pub fn contains_feed_url(feeds: &Vec<Feed>, url: &str) -> (r: bool)
    ensures
        r == has_feed_url(feeds@, url@),
{
    let mut i: usize = 0;
    while i < feeds.len()
        invariant
            i <= feeds@.len(),
            forall|j: int| 0 <= j < i ==> #[trigger] feeds@[j].url_spec() != url@,
        decreases feeds@.len() - i,
    {
        if str_eq(feeds[i].url_ref(), url) {
            return true;
        }
        i = i + 1;
    }
    false
}

/// The first stored feed with this URL, if any.
pub fn find_feed_by_url(feeds: &Vec<Feed>, url: &str) -> (r: Option<usize>)
    ensures
        match r {
            Some(i) => 0 <= i < feeds@.len() && feeds@[i as int].url_spec() == url@ && forall|j: int|
                0 <= j < i ==> #[trigger] feeds@[j].url_spec() != url@,
            None => !has_feed_url(feeds@, url@),
        },
{
    let mut i: usize = 0;
    while i < feeds.len()
        invariant
            i <= feeds@.len(),
            forall|j: int| 0 <= j < i ==> #[trigger] feeds@[j].url_spec() != url@,
        decreases feeds@.len() - i,
    {
        if str_eq(feeds[i].url_ref(), url) {
            return Some(i);
        }
        i = i + 1;
    }
    None
}

/// Append a feed unless its URL is already present; true when appended.
/// Re-adding a feed by a URL already present leaves the collection unchanged,
/// and adding never breaks URL uniqueness.
pub fn add_feed(feeds: &mut Vec<Feed>, feed: Feed) -> (added: bool)
    ensures
        added == !has_feed_url(old(feeds)@, feed.url_spec()),
        added ==> final(feeds)@ == old(feeds)@.push(feed),
        !added ==> final(feeds)@ == old(feeds)@,
        urls_unique(old(feeds)@) ==> urls_unique(final(feeds)@),
{
    if contains_feed_url(feeds, feed.url_ref()) {
        false
    } else {
        let ghost before = feeds@;
        let ghost f = feed;
        feeds.push(feed);
        proof {
            if urls_unique(before) {
                assert forall|i: int, j: int|
                    0 <= i < j < feeds@.len() implies #[trigger] feeds@[i].url_spec()
                    != #[trigger] feeds@[j].url_spec() by {
                    if j < before.len() {
                        assert(feeds@[i] == before[i] && feeds@[j] == before[j]);
                    } else {
                        assert(feeds@[j] == f);
                        assert(feeds@[i] == before[i]);
                        assert(!has_feed_url(before, f.url_spec()));
                    }
                }
            }
        }
        true
    }
}

/// The outcome of offering a fetched snapshot to the collection.
#[derive(Clone, Copy, Debug, PartialEq, Eq, Structural)]
pub enum MergeOutcome {
    /// Merged into the feed at `feed`; its new items start at `new_start`.
    Merged { feed: usize, new_start: usize },
    /// No stored feed has the snapshot's URL; nothing changed.
    NotFound,
    /// The first stored feed with that URL is of the other kind; nothing
    /// changed.
    Mismatch { feed: usize },
}

/// Offer a fetched snapshot to the collection: it is merged into the first
/// stored feed sharing its URL, if that feed is of the same kind.
pub fn diff_feed(feeds: &mut Vec<Feed>, update: Feed, now: i64) -> (r: MergeOutcome)
    ensures
        match r {
            MergeOutcome::Merged { feed, new_start } => {
                &&& 0 <= feed < old(feeds)@.len()
                &&& old(feeds)@[feed as int].url_spec() == update.url_spec()
                &&& forall|j: int|
                    0 <= j < feed ==> #[trigger] old(feeds)@[j].url_spec() != update.url_spec()
                &&& final(feeds)@ == old(feeds)@.update(feed as int, final(feeds)@[feed as int])
                &&& merge_post(old(feeds)@[feed as int], final(feeds)@[feed as int], update, now)
            },
            MergeOutcome::NotFound => final(feeds)@ == old(feeds)@ && !has_feed_url(
                old(feeds)@,
                update.url_spec(),
            ),
            MergeOutcome::Mismatch { feed } => {
                &&& final(feeds)@ == old(feeds)@
                &&& 0 <= feed < old(feeds)@.len()
                &&& old(feeds)@[feed as int].url_spec() == update.url_spec()
                &&& forall|j: int|
                    0 <= j < feed ==> #[trigger] old(feeds)@[j].url_spec() != update.url_spec()
                &&& ((old(feeds)@[feed as int] is Rss) != (update is Rss))
            },
        },
{
    let loc = match find_feed_by_url(feeds, update.url_ref()) {
        None => {
            return MergeOutcome::NotFound;
        },
        Some(i) => i,
    };
    let ghost before = feeds@;
    let mut stored = feeds.remove(loc);
    let merged = merge_feed(&mut stored, update, now);
    feeds.insert(loc, stored);
    proof {
        assert(feeds@ =~= before.update(loc as int, feeds@[loc as int]));
    }
    match merged {
        Ok(new_start) => MergeOutcome::Merged { feed: loc, new_start },
        Err(_) => {
            proof {
                assert(feeds@ =~= before);
            }
            MergeOutcome::Mismatch { feed: loc }
        },
    }
}

/// True when a command's feed argument names this feed: the argument's
/// canonical name equals the title's canonical name, or it is the exact URL.
pub open spec fn matches_id(f: Feed, id: Seq<char>) -> bool {
    canonical_name(f.title_spec()) == canonical_name(id) || f.url_spec() == id
}

/// Resolve a command's feed argument to the first feed it names.
pub fn find_feed(feeds: &Vec<Feed>, id: &str) -> (r: Option<usize>)
    ensures
        match r {
            Some(i) => 0 <= i < feeds@.len() && matches_id(feeds@[i as int], id@) && forall|j: int|
                0 <= j < i ==> !matches_id(#[trigger] feeds@[j], id@),
            None => forall|j: int|
                0 <= j < feeds@.len() ==> !matches_id(#[trigger] feeds@[j], id@),
        },
{
    let channel_name = title_to_channel_name(id);
    let mut i: usize = 0;
    while i < feeds.len()
        invariant
            i <= feeds@.len(),
            channel_name@ == canonical_name(id@),
            forall|j: int| 0 <= j < i ==> !matches_id(#[trigger] feeds@[j], id@),
        decreases feeds@.len() - i,
    {
        let fname = title_to_channel_name(feeds[i].title_ref());
        if fname.eq(&channel_name) || str_eq(feeds[i].url_ref(), id) {
            return Some(i);
        }
        i = i + 1;
    }
    None
}

/// True when a reaction's channel name points at this feed: it is the feed's
/// canonical channel name, or the name of its companion thread for read
/// items.
pub open spec fn matches_channel(f: Feed, name: Seq<char>) -> bool {
    canonical_name(f.title_spec()) == name || read_name(canonical_name(f.title_spec())) == name
}

/// Resolve a channel name to the first feed it points at.
fn find_feed_by_channel(feeds: &Vec<Feed>, name: &str) -> (r: Option<usize>)
    ensures
        match r {
            Some(i) => 0 <= i < feeds@.len() && matches_channel(feeds@[i as int], name@) && forall|
                j: int,
            | 0 <= j < i ==> !matches_channel(#[trigger] feeds@[j], name@),
            None => forall|j: int|
                0 <= j < feeds@.len() ==> !matches_channel(#[trigger] feeds@[j], name@),
        },
{
    let mut i: usize = 0;
    while i < feeds.len()
        invariant
            i <= feeds@.len(),
            forall|j: int| 0 <= j < i ==> !matches_channel(#[trigger] feeds@[j], name@),
        decreases feeds@.len() - i,
    {
        let cname = title_to_channel_name(feeds[i].title_ref());
        let rname = read_channel_name(cname.as_str());
        if str_eq(cname.as_str(), name) || str_eq(rname.as_str(), name) {
            return Some(i);
        }
        i = i + 1;
    }
    None
}

/// The link identity of the item at `idx`, as the mark commands see it: an
/// RSS item's link, an Atom entry's main link href.
pub open spec fn item_link_at(f: Feed, idx: int) -> Seq<char> {
    match f {
        Feed::Rss(rss) => rss.channel.item@[idx].link@,
        Feed::Atom(a) => a.entry@[idx].link_href_spec(),
    }
}

/// How many items the feed holds.
pub open spec fn item_count(f: Feed) -> int {
    match f {
        Feed::Rss(rss) => rss.channel.item@.len() as int,
        Feed::Atom(a) => a.entry@.len() as int,
    }
}

/// True when some item of the feed has this link identity.
pub open spec fn feed_has_item_link(f: Feed, link: Seq<char>) -> bool {
    exists|i: int| 0 <= i < item_count(f) && item_link_at(f, i) == link
}

/// The item with its read mark set or cleared.
pub open spec fn rss_item_marked(it: RssItem, read: bool) -> RssItem {
    RssItem { read, ..it }
}

/// The entry with its read mark set or cleared.
pub open spec fn entry_marked(e: Entry, read: bool) -> Entry {
    Entry { read, ..e }
}

/// What marking one item leaves behind: only that item's read mark changed.
pub open spec fn mark_post(before: Feed, after: Feed, idx: int, read: bool) -> bool {
    match (before, after) {
        (Feed::Rss(a), Feed::Rss(b)) => {
            &&& 0 <= idx < a.channel.item@.len()
            &&& b.channel.item@ == a.channel.item@.update(
                idx,
                rss_item_marked(a.channel.item@[idx], read),
            )
            &&& b.channel == (RssChannel { item: b.channel.item, ..a.channel })
        },
        (Feed::Atom(a), Feed::Atom(b)) => {
            &&& 0 <= idx < a.entry@.len()
            &&& b.entry@ == a.entry@.update(idx, entry_marked(a.entry@[idx], read))
            &&& b == (AtomFeed { entry: b.entry, ..a })
        },
        _ => false,
    }
}

/// The first item of `items` with this link, if any.
fn find_rss_item(items: &Vec<RssItem>, link: &str) -> (r: Option<usize>)
    ensures
        match r {
            Some(i) => 0 <= i < items@.len() && items@[i as int].link@ == link@ && forall|j: int|
                0 <= j < i ==> #[trigger] items@[j].link@ != link@,
            None => !rss_has_link(items@, link@),
        },
{
    let mut i: usize = 0;
    while i < items.len()
        invariant
            i <= items@.len(),
            forall|j: int| 0 <= j < i ==> #[trigger] items@[j].link@ != link@,
        decreases items@.len() - i,
    {
        if str_eq(items[i].link.as_str(), link) {
            return Some(i);
        }
        i = i + 1;
    }
    None
}

/// The first entry of `entries` whose main link is `link`, if any.
fn find_entry_by_link(entries: &Vec<Entry>, link: &str) -> (r: Option<usize>)
    ensures
        match r {
            Some(i) => 0 <= i < entries@.len() && entries@[i as int].link_href_spec() == link@
                && forall|j: int|
                0 <= j < i ==> #[trigger] entries@[j].link_href_spec() != link@,
            None => forall|j: int|
                0 <= j < entries@.len() ==> #[trigger] entries@[j].link_href_spec() != link@,
        },
{
    let mut i: usize = 0;
    while i < entries.len()
        invariant
            i <= entries@.len(),
            forall|j: int| 0 <= j < i ==> #[trigger] entries@[j].link_href_spec() != link@,
        decreases entries@.len() - i,
    {
        let href = entries[i].get_link_href();
        if str_eq(href, link) {
            return Some(i);
        }
        i = i + 1;
    }
    None
}

/// Resolve a channel name and an item link, and set or clear that item's
/// read mark.  Nothing changes when no feed answers to the name or the named
/// feed has no such item.
pub fn mark_item(feeds: &mut Vec<Feed>, name: &str, link: &str, read: bool) -> (r: Option<
    (usize, usize),
>)
    ensures
        match r {
            Some(p) => {
                &&& 0 <= p.0 < old(feeds)@.len()
                &&& matches_channel(old(feeds)@[p.0 as int], name@)
                &&& forall|j: int|
                    0 <= j < p.0 ==> !matches_channel(#[trigger] old(feeds)@[j], name@)
                &&& item_link_at(old(feeds)@[p.0 as int], p.1 as int) == link@
                &&& forall|j: int|
                    0 <= j < p.1 ==> item_link_at(old(feeds)@[p.0 as int], j) != link@
                &&& final(feeds)@ == old(feeds)@.update(p.0 as int, final(feeds)@[p.0 as int])
                &&& mark_post(old(feeds)@[p.0 as int], final(feeds)@[p.0 as int], p.1 as int, read)
            },
            None => {
                &&& final(feeds)@ == old(feeds)@
                &&& ((forall|j: int|
                    0 <= j < old(feeds)@.len() ==> !matches_channel(
                        #[trigger] old(feeds)@[j],
                        name@,
                    )) || (exists|fi: int|
                    {
                        &&& 0 <= fi < old(feeds)@.len()
                        &&& #[trigger] matches_channel(old(feeds)@[fi], name@)
                        &&& forall|j: int|
                            0 <= j < fi ==> !matches_channel(#[trigger] old(feeds)@[j], name@)
                        &&& !feed_has_item_link(old(feeds)@[fi], link@)
                    }))
            },
        },
{
    let ghost before = feeds@;
    let fi = match find_feed_by_channel(feeds, name) {
        None => {
            return None;
        },
        Some(i) => i,
    };
    let mut f = feeds.remove(fi);
    let item_idx: Option<usize> = match &f {
        Feed::Rss(rss) => find_rss_item(&rss.channel.item, link),
        Feed::Atom(a) => find_entry_by_link(&a.entry, link),
    };
    match item_idx {
        None => {
            feeds.insert(fi, f);
            proof {
                assert(feeds@ =~= before);
                assert(!feed_has_item_link(before[fi as int], link@));
                assert(matches_channel(before[fi as int], name@));
            }
            None
        },
        Some(ii) => {
            match &mut f {
                Feed::Rss(rss) => {
                    let ghost items0 = rss.channel.item@;
                    let mut it = rss.channel.item.remove(ii);
                    it.read = read;
                    rss.channel.item.insert(ii, it);
                    proof {
                        assert(rss.channel.item@ =~= items0.update(
                            ii as int,
                            rss_item_marked(items0[ii as int], read),
                        ));
                    }
                },
                Feed::Atom(a) => {
                    let ghost entries0 = a.entry@;
                    let mut e = a.entry.remove(ii);
                    e.read = read;
                    a.entry.insert(ii, e);
                    proof {
                        assert(a.entry@ =~= entries0.update(
                            ii as int,
                            entry_marked(entries0[ii as int], read),
                        ));
                    }
                },
            }
            feeds.insert(fi, f);
            proof {
                assert(feeds@ =~= before.update(fi as int, feeds@[fi as int]));
            }
            Some((fi, ii))
        },
    }
}

/// A command the actor can process.  Fetching, the platform calls and the
/// rendezvous with the sender stay with the caller; the command carries the
/// typed values the decision needs.
#[derive(Clone, Debug, PartialEq, Eq)]
pub enum Command {
    AddFeed(Box<Feed>),
    EditFeed(String, EditArgs),
    RemoveFeed(String),
    ReloadFeed(Option<String>),
    MarkRead(String, String),
    MarkUnread(String, String),
    Export(Option<String>),
    Import(crate::opml::Opml),
    Exit,
}

/// The fields an edit command may change.
#[derive(Clone, Debug, PartialEq, Eq)]
pub struct EditArgs {
    pub category: Option<String>,
    pub title: Option<String>,
    pub url: Option<String>,
}

impl Default for EditArgs {
    /// An edit that changes nothing.
    fn default() -> (r: Self)
        ensures
            r.category is None,
            r.title is None,
            r.url is None,
    {
        EditArgs { category: None, title: None, url: None }
    }
}

/// What the caller must do after a command was processed.  The actor decides;
/// the caller performs the outside work, in order.
#[derive(Clone, Debug, PartialEq, Eq)]
pub enum Action {
    /// Converge the platform topology for the feed at this index.
    Reconcile(usize),
    /// Publish the items of the feed at `feed` from position `start` on.
    PublishItems { feed: usize, start: usize },
    /// Delete the channel with this canonical name, then prune empty
    /// categories.
    RemoveChannel(String),
    /// Fetch this URL out of cycle and offer the snapshot back (an added
    /// feed, or a merge into the stored one).
    Fetch { url: String, title: Option<String> },
    /// Tell the caller the URL is already subscribed.
    ReplyAlreadyExists(String),
    /// Tell the caller no feed answers to this argument.
    ReplyNotFound(String),
    /// Hand the exported document back to the caller.
    ReplyOpml(crate::opml::Opml),
    /// Write the collection to durable storage.
    Persist,
    /// Stop the actor loop.
    Stop,
}

/// A feed after an edit: URL, then category (the literal `None` clears it),
/// then title are replaced where the edit names them.
pub open spec fn edited_feed(f: Feed, args: EditArgs) -> Feed {
    let f1 = match args.url {
        Some(u) => f.with_url(u),
        None => f,
    };
    let f2 = match args.category {
        Some(c) => f1.with_category(
            if c@ == "None"@ {
                None
            } else {
                Some(c)
            },
        ),
        None => f1,
    };
    match args.title {
        Some(t) => f2.with_title(t),
        None => f2,
    }
}

/// Adding: a URL already present changes nothing and informs the caller;
/// otherwise the feed is appended, its topology set up, its items published,
/// and the collection persisted.
pub open spec fn add_outcome(before: Seq<Feed>, after: Seq<Feed>, f: Feed, acts: Seq<Action>) -> bool {
    if has_feed_url(before, f.url_spec()) {
        &&& after == before
        &&& acts.len() == 1
        &&& match acts[0] {
            Action::ReplyAlreadyExists(u) => u@ == f.url_spec(),
            _ => false,
        }
    } else {
        &&& after == before.push(f)
        &&& acts.len() == 3
        &&& acts[0] == Action::Reconcile(before.len() as usize)
        &&& match acts[1] {
            Action::PublishItems { feed, start } => feed == before.len() && start == 0,
            _ => false,
        }
        &&& acts[2] == Action::Persist
    }
}

/// Editing: an unresolved argument changes nothing and informs the caller;
/// otherwise the feed's old channel is removed, the edited feed moves to the
/// end of the collection, its topology is recreated under the new identity,
/// its items republished, and the collection persisted.
pub open spec fn edit_outcome(
    before: Seq<Feed>,
    after: Seq<Feed>,
    id: Seq<char>,
    args: EditArgs,
    acts: Seq<Action>,
) -> bool {
    if (exists|i: int| 0 <= i < before.len() && matches_id(#[trigger] before[i], id)) {
        exists|loc: int|
            #![trigger matches_id(before[loc], id)]
            {
                &&& 0 <= loc < before.len()
                &&& matches_id(before[loc], id)
                &&& forall|j: int| 0 <= j < loc ==> !matches_id(#[trigger] before[j], id)
                &&& after == before.remove(loc).push(edited_feed(before[loc], args))
                &&& acts.len() == 4
                &&& (match acts[0] {
                    Action::RemoveChannel(n) => n@ == canonical_name(before[loc].title_spec()),
                    _ => false,
                })
                &&& acts[1] == Action::Reconcile((before.len() - 1) as usize)
                &&& (match acts[2] {
                    Action::PublishItems { feed, start } => feed == before.len() - 1 && start == 0,
                    _ => false,
                })
                &&& acts[3] == Action::Persist
            }
    } else {
        &&& after == before
        &&& acts.len() == 1
        &&& (match acts[0] {
            Action::ReplyNotFound(u) => u@ == id,
            _ => false,
        })
    }
}

/// Removing: an unresolved argument changes nothing and informs the caller;
/// otherwise the feed leaves the collection, its channel is removed, and the
/// collection persisted.
pub open spec fn remove_outcome(
    before: Seq<Feed>,
    after: Seq<Feed>,
    id: Seq<char>,
    acts: Seq<Action>,
) -> bool {
    if (exists|i: int| 0 <= i < before.len() && matches_id(#[trigger] before[i], id)) {
        exists|loc: int|
            #![trigger matches_id(before[loc], id)]
            {
                &&& 0 <= loc < before.len()
                &&& matches_id(before[loc], id)
                &&& forall|j: int| 0 <= j < loc ==> !matches_id(#[trigger] before[j], id)
                &&& after == before.remove(loc)
                &&& acts.len() == 2
                &&& (match acts[0] {
                    Action::RemoveChannel(n) => n@ == canonical_name(before[loc].title_spec()),
                    _ => false,
                })
                &&& acts[1] == Action::Persist
            }
    } else {
        &&& after == before
        &&& acts.len() == 1
        &&& (match acts[0] {
            Action::ReplyNotFound(u) => u@ == id,
            _ => false,
        })
    }
}

/// Reloading: one feed (or, with no argument, every feed) is fetched out of
/// cycle, its own eligibility policy ignored, and the collection persisted
/// after the merges.
pub open spec fn reload_outcome(
    before: Seq<Feed>,
    after: Seq<Feed>,
    id: Option<String>,
    acts: Seq<Action>,
) -> bool {
    match id {
        None => {
            &&& after == before
            &&& acts.len() == before.len() + 1
            &&& forall|k: int|
                0 <= k < before.len() ==> (match #[trigger] acts[k] {
                    Action::Fetch { url, title } => url@ == before[k].url_spec() && title is None,
                    _ => false,
                })
            &&& acts[before.len() as int] == Action::Persist
        },
        Some(id) => {
            if (exists|i: int| 0 <= i < before.len() && matches_id(#[trigger] before[i], id@)) {
                exists|loc: int|
                    #![trigger matches_id(before[loc], id@)]
                    {
                        &&& 0 <= loc < before.len()
                        &&& matches_id(before[loc], id@)
                        &&& forall|j: int| 0 <= j < loc ==> !matches_id(#[trigger] before[j], id@)
                        &&& after == before
                        &&& acts.len() == 2
                        &&& (match acts[0] {
                            Action::Fetch { url, title } => url@ == before[loc].url_spec()
                                && title is None,
                            _ => false,
                        })
                        &&& acts[1] == Action::Persist
                    }
            } else {
                &&& after == before
                &&& acts.len() == 1
                &&& (match acts[0] {
                    Action::ReplyNotFound(u) => u@ == id@,
                    _ => false,
                })
            }
        },
    }
}

/// Marking: when the name and link resolve, exactly that item's read mark is
/// set or cleared and the collection persisted; otherwise nothing changes and
/// nothing is asked of the caller (the failure is operator-visible only).
pub open spec fn mark_outcome(
    before: Seq<Feed>,
    after: Seq<Feed>,
    name: Seq<char>,
    link: Seq<char>,
    read: bool,
    acts: Seq<Action>,
) -> bool {
    ||| (exists|fi: int, ii: int|
        #![trigger item_link_at(before[fi], ii)]
        {
            &&& 0 <= fi < before.len()
            &&& matches_channel(before[fi], name)
            &&& forall|j: int| 0 <= j < fi ==> !matches_channel(#[trigger] before[j], name)
            &&& item_link_at(before[fi], ii) == link
            &&& forall|j: int| 0 <= j < ii ==> item_link_at(before[fi], j) != link
            &&& after == before.update(fi, after[fi])
            &&& mark_post(before[fi], after[fi], ii, read)
            &&& acts.len() == 1
            &&& acts[0] == Action::Persist
        })
    ||| {
        &&& after == before
        &&& acts.len() == 0
        &&& ((forall|j: int|
            0 <= j < before.len() ==> !matches_channel(#[trigger] before[j], name)) || (exists|
            fi: int,
        |
            {
                &&& 0 <= fi < before.len()
                &&& #[trigger] matches_channel(before[fi], name)
                &&& forall|j: int| 0 <= j < fi ==> !matches_channel(#[trigger] before[j], name)
                &&& !feed_has_item_link(before[fi], link)
            }))
    }
}

/// Exporting: the collection, unchanged, is rendered as an OPML document
/// stamped `now` and handed back.
pub open spec fn export_outcome(
    before: Seq<Feed>,
    after: Seq<Feed>,
    title: Option<String>,
    now: i64,
    acts: Seq<Action>,
) -> bool {
    &&& after == before
    &&& acts.len() == 1
    &&& (match acts[0] {
        Action::ReplyOpml(o) => crate::opml::opml_matches(
            before,
            match title {
                Some(t) => t@,
                None => Seq::<char>::empty(),
            },
            now,
            o,
        ),
        _ => false,
    })
}

/// The import plan: walking the candidates in order, one fetch per candidate
/// whose URL is not yet subscribed; candidates already subscribed are
/// dropped.
pub open spec fn import_actions(stored: Seq<Feed>, cands: Seq<Feed>, acts: Seq<Action>) -> bool
    decreases cands.len(),
{
    if cands.len() == 0 {
        acts.len() == 0
    } else if has_feed_url(stored, cands.last().url_spec()) {
        import_actions(stored, cands.drop_last(), acts)
    } else {
        &&& acts.len() >= 1
        &&& (match acts.last() {
            Action::Fetch { url, title } => url@ == cands.last().url_spec() && (match title {
                Some(t) => t@ == cands.last().title_spec(),
                None => false,
            }),
            _ => false,
        })
        &&& import_actions(stored, cands.drop_last(), acts.drop_last())
    }
}

/// Importing: the document's outlines become candidate feeds; those not yet
/// subscribed are fetched (each fetched snapshot then arrives as an add).
/// The collection itself does not change here.
pub open spec fn import_outcome(
    before: Seq<Feed>,
    after: Seq<Feed>,
    opml: crate::opml::Opml,
    acts: Seq<Action>,
) -> bool {
    &&& after == before
    &&& exists|cands: Seq<Feed>|
        {
            &&& cands.len() == opml.body.outline@.len()
            &&& (forall|i: int|
                0 <= i < cands.len() ==> crate::opml::feed_matches_outline(
                    opml.body.outline@[i],
                    #[trigger] cands[i],
                ))
            &&& #[trigger] import_actions(before, cands, acts)
        }
}

/// Removing an element keeps URLs unique.
proof fn lemma_remove_preserves_unique(feeds: Seq<Feed>, i: int)
    requires
        urls_unique(feeds),
        0 <= i < feeds.len(),
    ensures
        urls_unique(feeds.remove(i)),
{
    let r = feeds.remove(i);
    assert forall|a: int, b: int|
        0 <= a < b < r.len() implies #[trigger] r[a].url_spec() != #[trigger] r[b].url_spec() by {
        let a0: int = if a < i {
            a
        } else {
            a + 1
        };
        let b0: int = if b < i {
            b
        } else {
            b + 1
        };
        assert(r[a] == feeds[a0]);
        assert(r[b] == feeds[b0]);
    }
}

/// Replacing an element by one with the same URL keeps URLs unique.
proof fn lemma_update_same_url_preserves_unique(feeds: Seq<Feed>, i: int, f: Feed)
    requires
        urls_unique(feeds),
        0 <= i < feeds.len(),
        f.url_spec() == feeds[i].url_spec(),
    ensures
        urls_unique(feeds.update(i, f)),
{
    let r = feeds.update(i, f);
    assert forall|a: int, b: int|
        0 <= a < b < r.len() implies #[trigger] r[a].url_spec() != #[trigger] r[b].url_spec() by {
        assert(r[a].url_spec() == feeds[a].url_spec());
        assert(r[b].url_spec() == feeds[b].url_spec());
    }
}

/// Moving an element to the end, with its URL kept, keeps URLs unique.
proof fn lemma_move_to_end_same_url_preserves_unique(feeds: Seq<Feed>, i: int, f: Feed)
    requires
        urls_unique(feeds),
        0 <= i < feeds.len(),
        f.url_spec() == feeds[i].url_spec(),
    ensures
        urls_unique(feeds.remove(i).push(f)),
{
    lemma_remove_preserves_unique(feeds, i);
    let r = feeds.remove(i);
    let out = r.push(f);
    assert forall|a: int, b: int|
        0 <= a < b < out.len() implies #[trigger] out[a].url_spec() != #[trigger] out[b].url_spec() by {
        if b < r.len() {
            assert(out[a] == r[a] && out[b] == r[b]);
        } else {
            assert(out[b] == f);
            let a0: int = if a < i {
                a
            } else {
                a + 1
            };
            assert(out[a] == feeds[a0]);
            assert(a0 != i);
            if a0 < i {
                assert(feeds[a0].url_spec() != feeds[i].url_spec());
            } else {
                assert(feeds[i].url_spec() != feeds[a0].url_spec());
            }
        }
    }
}

/// Process one command against the collection: the single place that mutates
/// the stored feeds.  Returns the outside work the caller must perform, in
/// order.  URL uniqueness survives every command that does not change a
/// feed's URL.
pub fn process_command(feeds: &mut Vec<Feed>, cmd: Command, now: i64) -> (actions: Vec<Action>)
    ensures
        match cmd {
            Command::AddFeed(f) => add_outcome(old(feeds)@, final(feeds)@, *f, actions@),
            Command::EditFeed(id, args) => edit_outcome(
                old(feeds)@,
                final(feeds)@,
                id@,
                args,
                actions@,
            ),
            Command::RemoveFeed(id) => remove_outcome(old(feeds)@, final(feeds)@, id@, actions@),
            Command::ReloadFeed(id) => reload_outcome(old(feeds)@, final(feeds)@, id, actions@),
            Command::MarkRead(name, link) => mark_outcome(
                old(feeds)@,
                final(feeds)@,
                name@,
                link@,
                true,
                actions@,
            ),
            Command::MarkUnread(name, link) => mark_outcome(
                old(feeds)@,
                final(feeds)@,
                name@,
                link@,
                false,
                actions@,
            ),
            Command::Export(title) => export_outcome(
                old(feeds)@,
                final(feeds)@,
                title,
                now,
                actions@,
            ),
            Command::Import(opml) => import_outcome(old(feeds)@, final(feeds)@, opml, actions@),
            Command::Exit => {
                &&& final(feeds)@ == old(feeds)@
                &&& actions@.len() == 2
                &&& actions@[0] == Action::Persist
                &&& actions@[1] == Action::Stop
            },
        },
        urls_unique(old(feeds)@) && (match cmd {
            Command::EditFeed(_, args) => args.url is None,
            _ => true,
        }) ==> urls_unique(final(feeds)@),
{
    let ghost before = feeds@;
    let mut actions: Vec<Action> = Vec::new();
    match cmd {
        Command::AddFeed(boxed) => {
            let f = *boxed;
            if contains_feed_url(feeds, f.url_ref()) {
                actions.push(Action::ReplyAlreadyExists(f.url()));
            } else {
                let idx: usize = feeds.len();
                let added = add_feed(feeds, f);
                assert(added);
                actions.push(Action::Reconcile(idx));
                actions.push(Action::PublishItems { feed: idx, start: 0 });
                actions.push(Action::Persist);
            }
        },
        Command::EditFeed(id, args) => {
            match find_feed(feeds, id.as_str()) {
                None => {
                    actions.push(Action::ReplyNotFound(id));
                },
                Some(loc) => {
                    let ghost gargs = args;
                    let mut f = feeds.remove(loc);
                    let old_name = title_to_channel_name(f.title_ref());
                    let EditArgs { category, title, url } = args;
                    if let Some(u) = url {
                        f.set_url(u);
                    }
                    if let Some(c) = category {
                        let ghost mid = f;
                        let newcat: Option<String> = if str_eq(c.as_str(), "None") {
                            None
                        } else {
                            Some(c)
                        };
                        match &mut f {
                            Feed::Rss(rss) => rss.channel.discord_category = newcat,
                            Feed::Atom(a) => a.discord_category = newcat,
                        }
                        proof {
                            assert(f == mid.with_category(
                                if gargs.category->0@ == "None"@ {
                                    None
                                } else {
                                    Some(gargs.category->0)
                                },
                            ));
                        }
                    }
                    if let Some(t) = title {
                        f.set_title(t);
                    }
                    proof {
                        assert(f == edited_feed(before[loc as int], gargs));
                    }
                    feeds.push(f);
                    let last: usize = feeds.len() - 1;
                    actions.push(Action::RemoveChannel(old_name));
                    actions.push(Action::Reconcile(last));
                    actions.push(Action::PublishItems { feed: last, start: 0 });
                    actions.push(Action::Persist);
                    proof {
                        assert(matches_id(before[loc as int], id@));
                        if urls_unique(before) && gargs.url is None {
                            let edited = edited_feed(before[loc as int], gargs);
                            assert(edited.url_spec() == before[loc as int].url_spec());
                            lemma_move_to_end_same_url_preserves_unique(
                                before,
                                loc as int,
                                edited,
                            );
                        }
                    }
                },
            }
        },
        Command::RemoveFeed(id) => {
            match find_feed(feeds, id.as_str()) {
                None => {
                    actions.push(Action::ReplyNotFound(id));
                },
                Some(loc) => {
                    let f = feeds.remove(loc);
                    let name = title_to_channel_name(f.title_ref());
                    actions.push(Action::RemoveChannel(name));
                    actions.push(Action::Persist);
                    proof {
                        assert(matches_id(before[loc as int], id@));
                        if urls_unique(before) {
                            lemma_remove_preserves_unique(before, loc as int);
                        }
                    }
                },
            }
        },
        Command::ReloadFeed(id) => {
            match id {
                None => {
                    let mut k: usize = 0;
                    while k < feeds.len()
                        invariant
                            k <= feeds@.len(),
                            feeds@ == before,
                            actions@.len() == k,
                            forall|j: int|
                                0 <= j < k ==> (match #[trigger] actions@[j] {
                                    Action::Fetch { url, title } => url@ == before[j].url_spec()
                                        && title is None,
                                    _ => false,
                                }),
                        decreases feeds@.len() - k,
                    {
                        actions.push(Action::Fetch { url: feeds[k].url(), title: None });
                        k = k + 1;
                    }
                    actions.push(Action::Persist);
                },
                Some(id) => {
                    match find_feed(feeds, id.as_str()) {
                        None => {
                            actions.push(Action::ReplyNotFound(id));
                        },
                        Some(loc) => {
                            actions.push(
                                Action::Fetch { url: feeds[loc].url(), title: None },
                            );
                            actions.push(Action::Persist);
                            proof {
                                assert(matches_id(before[loc as int], id@));
                            }
                        },
                    }
                },
            }
        },
        Command::MarkRead(name, link) => {
            let marked = mark_item(feeds, name.as_str(), link.as_str(), true);
            if marked.is_some() {
                actions.push(Action::Persist);
            }
            proof {
                if urls_unique(before) {
                    match marked {
                        Some(p) => {
                            let fi = p.0 as int;
                            match (before[fi], feeds@[fi]) {
                                (Feed::Rss(x), Feed::Rss(y)) => {
                                    assert(y.channel.url == x.channel.url);
                                },
                                (Feed::Atom(x), Feed::Atom(y)) => {
                                    assert(y.url == x.url);
                                },
                                _ => {
                                    assert(false);
                                },
                            }
                            lemma_update_same_url_preserves_unique(before, fi, feeds@[fi]);
                        },
                        None => {},
                    }
                }
            }
        },
        Command::MarkUnread(name, link) => {
            let marked = mark_item(feeds, name.as_str(), link.as_str(), false);
            if marked.is_some() {
                actions.push(Action::Persist);
            }
            proof {
                if urls_unique(before) {
                    match marked {
                        Some(p) => {
                            let fi = p.0 as int;
                            match (before[fi], feeds@[fi]) {
                                (Feed::Rss(x), Feed::Rss(y)) => {
                                    assert(y.channel.url == x.channel.url);
                                },
                                (Feed::Atom(x), Feed::Atom(y)) => {
                                    assert(y.url == x.url);
                                },
                                _ => {
                                    assert(false);
                                },
                            }
                            lemma_update_same_url_preserves_unique(before, fi, feeds@[fi]);
                        },
                        None => {},
                    }
                }
            }
        },
        Command::Export(title) => {
            let title_str: String = match title {
                Some(t) => t,
                None => String::new(),
            };
            let o = crate::opml::opml_of_feeds(title_str.as_str(), feeds, now);
            actions.push(Action::ReplyOpml(o));
        },
        Command::Import(opml) => {
            let cands = crate::opml::feeds_of_opml(opml);
            let ghost gcands = cands@;
            let mut k: usize = 0;
            while k < cands.len()
                invariant
                    k <= gcands.len(),
                    cands@ == gcands,
                    feeds@ == before,
                    import_actions(before, gcands.subrange(0, k as int), actions@),
                decreases gcands.len() - k,
            {
                let ghost step = gcands.subrange(0, k as int + 1);
                proof {
                    assert(step.drop_last() =~= gcands.subrange(0, k as int));
                    assert(step.last() == gcands[k as int]);
                }
                if !contains_feed_url(feeds, cands[k].url_ref()) {
                    let ghost acts0 = actions@;
                    actions.push(
                        Action::Fetch { url: cands[k].url(), title: Some(cands[k].title()) },
                    );
                    proof {
                        assert(actions@.drop_last() =~= acts0);
                    }
                }
                k = k + 1;
            }
            proof {
                assert(gcands.subrange(0, gcands.len() as int) =~= gcands);
                assert(import_actions(before, gcands, actions@));
            }
        },
        Command::Exit => {
            actions.push(Action::Persist);
            actions.push(Action::Stop);
        },
    }
    actions
}

/// The poll plan at time `now`: a fetch for every feed its own policy says is
/// due, in collection order, then one persist after the merges.
pub open spec fn poll_actions(feeds: Seq<Feed>, now: i64, acts: Seq<Action>) -> bool
    decreases feeds.len(),
{
    if feeds.len() == 0 {
        acts.len() == 0
    } else if feeds.last().due_spec(now) {
        &&& acts.len() >= 1
        &&& (match acts.last() {
            Action::Fetch { url, title } => url@ == feeds.last().url_spec() && title is None,
            _ => false,
        })
        &&& poll_actions(feeds.drop_last(), now, acts.drop_last())
    } else {
        poll_actions(feeds.drop_last(), now, acts)
    }
}

/// Decide which feeds a timer tick should fetch: those due at `now` under
/// their own ttl and skip windows; the collection is persisted once after
/// the cycle's merges.
pub fn plan_poll(feeds: &Vec<Feed>, now: i64) -> (actions: Vec<Action>)
    requires
        0 <= now,
    ensures
        actions@.len() >= 1,
        actions@.last() == Action::Persist,
        poll_actions(feeds@, now, actions@.drop_last()),
{
    let mut actions: Vec<Action> = Vec::new();
    let mut k: usize = 0;
    while k < feeds.len()
        invariant
            0 <= now,
            k <= feeds@.len(),
            poll_actions(feeds@.subrange(0, k as int), now, actions@),
        decreases feeds@.len() - k,
    {
        let ghost step = feeds@.subrange(0, k as int + 1);
        proof {
            assert(step.drop_last() =~= feeds@.subrange(0, k as int));
            assert(step.last() == feeds@[k as int]);
        }
        if feeds[k].should_update_at(now) {
            let ghost acts0 = actions@;
            actions.push(Action::Fetch { url: feeds[k].url(), title: None });
            proof {
                assert(actions@.drop_last() =~= acts0);
            }
        }
        k = k + 1;
    }
    proof {
        assert(feeds@.subrange(0, feeds@.len() as int) =~= feeds@);
    }
    let ghost fetches = actions@;
    actions.push(Action::Persist);
    proof {
        assert(actions@.drop_last() =~= fetches);
    }
    actions
}

} // verus!
