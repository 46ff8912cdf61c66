//! Planning the platform's channel topology.  The desired shape is a pure
//! function of the feed collection: one category per distinct label, one
//! channel per feed under its feed title's canonical name, one companion
//! thread for read items per feed.  The planner turns an observed channel
//! list plus the collection into an ordered list of operations; performing
//! them (and resolving names to platform ids) is the caller's business.

use vstd::prelude::*;
use vstd::string::StringExecFns;

use crate::discord::canonical_name;
use crate::discord::read_channel_name;
use crate::discord::read_name;
use crate::discord::str_eq;
use crate::discord::title_to_channel_name;
use crate::feed::clone_opt_string;
use crate::feed::opt_view;
use crate::feed::Feed;

verus! {

/// What an observed channel is.
#[derive(Clone, Copy, Debug, PartialEq, Eq, Structural)]
pub enum ChannelKind {
    Category,
    Text,
    Thread,
}

/// One observed channel, category or thread of a guild.
#[derive(Clone, Debug, PartialEq, Eq)]
pub struct ChannelState {
    pub id: u64,
    pub name: String,
    pub kind: ChannelKind,
    pub parent: Option<u64>,
}

/// One topology operation; channels are named by their canonical name, and
/// the performer resolves names to platform ids.
#[derive(Clone, Debug, PartialEq, Eq)]
pub enum TopologyOp {
    /// Create a category channel.
    CreateCategory { name: String },
    /// Move or rename the feed's channel and parent it to its category.
    EditChannel { name: String, parent: Option<String> },
    /// Create the feed's channel, with its topic, under its category.
    CreateChannel { name: String, topic: String, parent: Option<String> },
    /// Refresh the companion thread's name and topic.
    EditReadThread { name: String, topic: String },
    /// Post a placeholder message in `channel` and open the companion thread
    /// on it.
    CreateReadThread { channel: String, name: String },
    /// Delete the channel with this name.
    DeleteChannel { name: String },
}

/// True when some observed channel bears this name.
pub open spec fn has_channel(chs: Seq<ChannelState>, name: Seq<char>) -> bool {
    exists|i: int| 0 <= i < chs.len() && chs[i].name@ == name
}

/// True when `names` holds this name.
pub open spec fn contains_str(names: Seq<Seq<char>>, name: Seq<char>) -> bool {
    exists|i: int| 0 <= i < names.len() && names[i] == name
}

/// True when some observed channel bears this name.
pub fn contains_channel(chs: &Vec<ChannelState>, name: &str) -> (r: bool)
    ensures
        r == has_channel(chs@, name@),
{
    let mut i: usize = 0;
    while i < chs.len()
        invariant
            i <= chs@.len(),
            forall|j: int| 0 <= j < i ==> #[trigger] chs@[j].name@ != name@,
        decreases chs@.len() - i,
    {
        if str_eq(chs[i].name.as_str(), name) {
            return true;
        }
        i = i + 1;
    }
    false
}

/// True when one of the collected names is this name.
fn contains_name(names: &Vec<String>, name: &str) -> (r: bool)
    ensures
        r == contains_str(names.deep_view(), name@),
{
    let mut i: usize = 0;
    while i < names.len()
        invariant
            i <= names@.len(),
            forall|j: int| 0 <= j < i ==> #[trigger] names@[j]@ != name@,
        decreases names@.len() - i,
    {
        if str_eq(names[i].as_str(), name) {
            assert(names.deep_view()[i as int] == name@);
            return true;
        }
        i = i + 1;
    }
    assert forall|j: int| 0 <= j < names.deep_view().len() implies #[trigger] names.deep_view()[j]
        != name@ by {
        assert(names.deep_view()[j] == names@[j]@);
    }
    false
}

/// The feed's category, as a canonical channel name.
pub open spec fn category_name_of(f: Feed) -> Option<Seq<char>> {
    match f.category_spec() {
        Some(c) => Some(canonical_name(c)),
        None => None,
    }
}

/// True when converging this feed must create its category first: a label is
/// assigned, but no observed channel bears it and no earlier operation of the
/// same pass creates it.
pub open spec fn needs_category(chs: Seq<ChannelState>, created: Seq<Seq<char>>, f: Feed) -> bool {
    match category_name_of(f) {
        Some(c) => !has_channel(chs, c) && !contains_str(created, c),
        None => false,
    }
}

/// What one feed's share of a reconciliation pass looks like, given the
/// observed channels and the names already created earlier in the pass: the
/// missing category is created first; an existing feed channel is edited in
/// place and its companion thread refreshed or created; a missing one is
/// created together with its companion thread; a channel the same pass is
/// already creating is left alone.
pub open spec fn feed_plan_matches(
    chs: Seq<ChannelState>,
    created: Seq<Seq<char>>,
    f: Feed,
    ops: Seq<TopologyOp>,
) -> bool {
    let cname = canonical_name(f.title_spec());
    let rname = read_name(cname);
    let cat = category_name_of(f);
    let base: int = if needs_category(chs, created, f) {
        1int
    } else {
        0int
    };
    &&& (needs_category(chs, created, f) ==> ops.len() >= 1 && (match ops[0] {
        TopologyOp::CreateCategory { name } => Some(name@) == cat,
        _ => false,
    }))
    &&& if has_channel(chs, cname) {
        &&& ops.len() == base + 2
        &&& (match ops[base] {
            TopologyOp::EditChannel { name, parent } => name@ == cname && opt_view(parent) == cat,
            _ => false,
        })
        &&& if has_channel(chs, rname) || contains_str(created, rname) {
            match ops[base + 1] {
                TopologyOp::EditReadThread { name, topic } => name@ == rname && topic@ == "Read items: "@
                    + f.description_spec(),
                _ => false,
            }
        } else {
            match ops[base + 1] {
                TopologyOp::CreateReadThread { channel, name } => channel@ == cname && name@
                    == rname,
                _ => false,
            }
        }
    } else if contains_str(created, cname) {
        ops.len() == base
    } else {
        &&& ops.len() == base + 2
        &&& (match ops[base] {
            TopologyOp::CreateChannel { name, topic, parent } => name@ == cname && topic@
                == f.description_spec() && opt_view(parent) == cat,
            _ => false,
        })
        &&& (match ops[base + 1] {
            TopologyOp::CreateReadThread { channel, name } => channel@ == cname && name@ == rname,
            _ => false,
        })
    }
}

/// The names a feed's share of the pass adds to the created set.
pub open spec fn created_after(chs: Seq<ChannelState>, created: Seq<Seq<char>>, f: Feed) -> Seq<
    Seq<char>,
> {
    let cname = canonical_name(f.title_spec());
    let rname = read_name(cname);
    let with_cat = if needs_category(chs, created, f) {
        created.push(
            match category_name_of(f) {
                Some(c) => c,
                None => Seq::<char>::empty(),
            },
        )
    } else {
        created
    };
    if has_channel(chs, cname) || contains_str(created, cname) {
        with_cat
    } else {
        with_cat.push(cname).push(rname)
    }
}

/// Plan the operations that converge the topology for one feed, and record
/// the channel names those operations create.
pub fn plan_feed(chs: &Vec<ChannelState>, created: &mut Vec<String>, f: &Feed) -> (ops: Vec<
    TopologyOp,
>)
    ensures
        feed_plan_matches(chs@, old(created).deep_view(), *f, ops@),
        final(created).deep_view() == created_after(chs@, old(created).deep_view(), *f),
{
    let ghost created0 = created.deep_view();
    let cname = title_to_channel_name(f.title_ref());
    let rname = read_channel_name(cname.as_str());
    let cat: Option<String> = match f.discord_category() {
        Some(c) => Some(title_to_channel_name(c.as_str())),
        None => None,
    };
    proof {
        assert(opt_view(cat) == category_name_of(*f));
    }
    let needs_cat: bool = match &cat {
        Some(c) => !contains_channel(chs, c.as_str()) && !contains_name(created, c.as_str()),
        None => false,
    };
    assert(needs_cat == needs_category(chs@, created0, *f));
    let channel_exists = contains_channel(chs, cname.as_str());
    let channel_planned = contains_name(created, cname.as_str());
    let thread_exists = contains_channel(chs, rname.as_str()) || contains_name(
        created,
        rname.as_str(),
    );

    let mut ops: Vec<TopologyOp> = Vec::new();
    if needs_cat {
        let c = match clone_opt_string(&cat) {
            Some(c) => c,
            None => String::new(),
        };
        created.push(c.clone());
        proof {
            assert(created.deep_view() =~= created0.push(c@));
        }
        ops.push(TopologyOp::CreateCategory { name: c });
    }
    if channel_exists {
        ops.push(TopologyOp::EditChannel { name: cname.clone(), parent: cat });
        if thread_exists {
            let mut topic = String::from_str("Read items: ");
            let d = f.description();
            topic.append(d.as_str());
            ops.push(TopologyOp::EditReadThread { name: rname, topic });
        } else {
            ops.push(TopologyOp::CreateReadThread { channel: cname, name: rname });
        }
    } else if channel_planned {
        // An earlier feed of this pass is already creating the channel.
    } else {
        ops.push(
            TopologyOp::CreateChannel {
                name: cname.clone(),
                topic: f.description(),
                parent: cat,
            },
        );
        ops.push(TopologyOp::CreateReadThread { channel: cname.clone(), name: rname.clone() });
        let ghost mid = created.deep_view();
        created.push(cname);
        proof {
            assert(created.deep_view() =~= mid.push(canonical_name(f.title_spec())));
        }
        let ghost mid2 = created.deep_view();
        created.push(rname);
        proof {
            assert(created.deep_view() =~= mid2.push(
                read_name(canonical_name(f.title_spec())),
            ));
        }
    }
    ops
}

/// The created set after the pass has handled these feeds, in order.
pub open spec fn created_fold(
    chs: Seq<ChannelState>,
    created0: Seq<Seq<char>>,
    feeds: Seq<Feed>,
) -> Seq<Seq<char>>
    decreases feeds.len(),
{
    if feeds.len() == 0 {
        created0
    } else {
        created_after(chs, created_fold(chs, created0, feeds.drop_last()), feeds.last())
    }
}

/// What a whole reconciliation pass looks like: each feed's share in
/// collection order, each against the created set its predecessors left.
pub open spec fn setup_plan(
    chs: Seq<ChannelState>,
    created0: Seq<Seq<char>>,
    feeds: Seq<Feed>,
    ops: Seq<TopologyOp>,
) -> bool
    decreases feeds.len(),
{
    if feeds.len() == 0 {
        ops.len() == 0
    } else {
        exists|k: int|
            #![trigger ops.subrange(0, k)]
            {
                &&& 0 <= k <= ops.len()
                &&& setup_plan(chs, created0, feeds.drop_last(), ops.subrange(0, k))
                &&& feed_plan_matches(
                    chs,
                    created_fold(chs, created0, feeds.drop_last()),
                    feeds.last(),
                    ops.subrange(k, ops.len() as int),
                )
            }
    }
}

/// Plan a whole reconciliation pass: converge the topology for every feed of
/// the collection, in order, against the observed channels.  Deleting the
/// categories the pass left empty is a separate step (see
/// [`plan_empty_category_cleanup`]), taken on a fresh channel listing.
pub fn plan_setup(chs: &Vec<ChannelState>, feeds: &Vec<Feed>) -> (ops: Vec<TopologyOp>)
    ensures
        setup_plan(chs@, Seq::<Seq<char>>::empty(), feeds@, ops@),
{
    let mut created: Vec<String> = Vec::new();
    let mut ops: Vec<TopologyOp> = Vec::new();
    proof {
        assert(created.deep_view() =~= Seq::<Seq<char>>::empty());
    }
    let mut i: usize = 0;
    while i < feeds.len()
        invariant
            i <= feeds@.len(),
            setup_plan(chs@, Seq::<Seq<char>>::empty(), feeds@.subrange(0, i as int), ops@),
            created.deep_view() == created_fold(
                chs@,
                Seq::<Seq<char>>::empty(),
                feeds@.subrange(0, i as int),
            ),
        decreases feeds@.len() - i,
    {
        let ghost step = feeds@.subrange(0, i as int + 1);
        proof {
            assert(step.drop_last() =~= feeds@.subrange(0, i as int));
            assert(step.last() == feeds@[i as int]);
        }
        let ghost k = ops@.len() as int;
        let ghost ops0 = ops@;
        let mut fops = plan_feed(chs, &mut created, &feeds[i]);
        let ghost fops_view = fops@;
        ops.append(&mut fops);
        proof {
            assert(ops@.subrange(0, k) =~= ops0);
            assert(ops@.subrange(k, ops@.len() as int) =~= fops_view);
            assert(setup_plan(chs@, Seq::<Seq<char>>::empty(), step.drop_last(), ops@.subrange(0, k)));
        }
        i = i + 1;
    }
    proof {
        assert(feeds@.subrange(0, feeds@.len() as int) =~= feeds@);
    }
    ops
}

/// True when the channel at `i` is a category with no child in the list.
pub open spec fn category_is_empty(chs: Seq<ChannelState>, i: int) -> bool {
    &&& chs[i].kind == ChannelKind::Category
    &&& forall|j: int| 0 <= j < chs.len() ==> #[trigger] chs[j].parent != Some(chs[i].id)
}

/// True when `ops` is exactly one deletion per childless category among the
/// first `k` channels, in listing order.
pub open spec fn cleanup_matches(chs: Seq<ChannelState>, k: int, ops: Seq<TopologyOp>) -> bool
    decreases k,
{
    if k <= 0 {
        ops.len() == 0
    } else if category_is_empty(chs, k - 1) {
        &&& ops.len() >= 1
        &&& (match ops.last() {
            TopologyOp::DeleteChannel { name } => name@ == chs[k - 1].name@,
            _ => false,
        })
        &&& cleanup_matches(chs, k - 1, ops.drop_last())
    } else {
        cleanup_matches(chs, k - 1, ops)
    }
}

/// True when some channel of the list is parented to this id.
fn has_child(chs: &Vec<ChannelState>, id: u64) -> (r: bool)
    ensures
        r == exists|j: int| 0 <= j < chs@.len() && chs@[j].parent == Some(id),
{
    let mut j: usize = 0;
    while j < chs.len()
        invariant
            j <= chs@.len(),
            forall|k: int| 0 <= k < j ==> #[trigger] chs@[k].parent != Some(id),
        decreases chs@.len() - j,
    {
        let is_child: bool = match chs[j].parent {
            Some(p) => p == id,
            None => false,
        };
        if is_child {
            return true;
        }
        j = j + 1;
    }
    false
}

/// Plan the deletion of every category that has no remaining child.
pub fn plan_empty_category_cleanup(chs: &Vec<ChannelState>) -> (ops: Vec<TopologyOp>)
    ensures
        cleanup_matches(chs@, chs@.len() as int, ops@),
{
    let mut ops: Vec<TopologyOp> = Vec::new();
    let mut i: usize = 0;
    while i < chs.len()
        invariant
            i <= chs@.len(),
            cleanup_matches(chs@, i as int, ops@),
        decreases chs@.len() - i,
    {
        let is_category: bool = match chs[i].kind {
            ChannelKind::Category => true,
            _ => false,
        };
        if is_category && !has_child(chs, chs[i].id) {
            let ghost acts0 = ops@;
            ops.push(TopologyOp::DeleteChannel { name: chs[i].name.clone() });
            proof {
                assert(ops@.drop_last() =~= acts0);
            }
        }
        i = i + 1;
    }
    ops
}

/// Plan the removal of a feed's channel: delete the channel bearing the
/// canonical name when the listing shows one, then prune the categories the
/// listing already showed childless.
pub fn plan_remove_channel(chs: &Vec<ChannelState>, name: &str) -> (ops: Vec<TopologyOp>)
    ensures
        has_channel(chs@, name@) ==> ops@.len() >= 1 && (match ops@[0] {
            TopologyOp::DeleteChannel { name: n } => n@ == name@,
            _ => false,
        }) && cleanup_matches(chs@, chs@.len() as int, ops@.skip(1)),
        !has_channel(chs@, name@) ==> cleanup_matches(chs@, chs@.len() as int, ops@),
{
    let mut ops: Vec<TopologyOp> = Vec::new();
    if contains_channel(chs, name) {
        ops.push(TopologyOp::DeleteChannel { name: name.to_owned() });
    }
    let ghost head = ops@;
    let mut cleanup = plan_empty_category_cleanup(chs);
    let ghost tail = cleanup@;
    ops.append(&mut cleanup);
    proof {
        assert(ops@.skip(head.len() as int) =~= tail);
        if head.len() == 0 {
            assert(ops@ =~= tail);
        }
    }
    ops
}

} // verus!
