//! Canonical channel names: every feed is shown in a channel whose name is a
//! deterministic slug of the feed's title.  The slug is lowercase, whitespace
//! runs become a single `-`, characters outside `[a-z0-9_-]` are dropped, and
//! the result is cut to at most 95 characters.  The same slug is the lookup
//! key used to resolve a feed named in a command.

pub mod topology;

use vstd::prelude::*;
use vstd::string::StrSliceExecFns;
use vstd::string::StringExecFns;

verus! {

/// Whitespace characters whose runs collapse to a single `-`.
pub open spec fn is_space_char(c: char) -> bool {
    c == ' ' || c == '\t' || c == '\n' || c == '\r' || c == '\u{b}' || c == '\u{c}'
}

/// Characters allowed in a canonical channel name.
pub open spec fn is_allowed_char(c: char) -> bool {
    ('a' <= c && c <= 'z') || ('0' <= c && c <= '9') || c == '_' || c == '-'
}

/// ASCII lowercasing of a single character.
pub open spec fn to_lower_char(c: char) -> char {
    if 'A' <= c && c <= 'Z' {
        ((c as int) + 32) as char
    } else {
        c
    }
}

/// Pointwise ASCII lowercasing.
pub open spec fn lower_seq(s: Seq<char>) -> Seq<char> {
    s.map_values(|c: char| to_lower_char(c))
}

/// Collapse whitespace runs to a single `-`; `prev_space` records whether the
/// character just before `s` was part of a whitespace run.
pub open spec fn collapse_from(s: Seq<char>, prev_space: bool) -> Seq<char>
    decreases s.len(),
{
    if s.len() == 0 {
        Seq::<char>::empty()
    } else {
        let c = s[0];
        if is_space_char(c) {
            if prev_space {
                collapse_from(s.drop_first(), true)
            } else {
                seq!['-'] + collapse_from(s.drop_first(), true)
            }
        } else {
            seq![c] + collapse_from(s.drop_first(), false)
        }
    }
}

/// Collapse every whitespace run of `s` to a single `-`.
pub open spec fn collapse_spaces(s: Seq<char>) -> Seq<char> {
    collapse_from(s, false)
}

/// Keep only the characters allowed in a canonical name.
pub open spec fn keep_allowed(s: Seq<char>) -> Seq<char>
    decreases s.len(),
{
    if s.len() == 0 {
        Seq::<char>::empty()
    } else {
        let rest = keep_allowed(s.drop_last());
        if is_allowed_char(s.last()) {
            rest.push(s.last())
        } else {
            rest
        }
    }
}

/// Cut a sequence to at most `n` characters.
pub open spec fn take_at_most(s: Seq<char>, n: int) -> Seq<char> {
    if s.len() <= n {
        s
    } else {
        s.subrange(0, n)
    }
}

/// The canonical channel name of a title: lowercase, whitespace runs become
/// `-`, everything outside `[a-z0-9_-]` is dropped, at most 95 characters.
pub open spec fn canonical_name(s: Seq<char>) -> Seq<char> {
    take_at_most(keep_allowed(collapse_spaces(lower_seq(s))), 95)
}

/// Collect the characters of a string slice into a vector, preserving order.
pub fn str_to_chars(s: &str) -> (r: Vec<char>)
    ensures
        r@ == s@,
{
    let n: usize = s.unicode_len();
    let mut r: Vec<char> = Vec::new();
    let mut i: usize = 0;
    while i < n
        invariant
            n == s@.len(),
            i <= n,
            r@ == s@.subrange(0, i as int),
        decreases n - i,
    {
        let c = s.get_char(i);
        r.push(c);
        assert(r@ =~= s@.subrange(0, (i + 1) as int));
        i = i + 1;
    }
    assert(s@.subrange(0, n as int) =~= s@);
    r
}

/// Relies on `String`'s `FromIterator<&char>`: collecting an iterator of
/// characters yields the string holding exactly those characters in order.
#[verifier::external_body]
fn chars_to_string(v: &Vec<char>) -> (r: String)
    ensures
        r@ == v@,
{
    v.iter().collect()
}

/// True when `a` and `b` hold the same characters.
pub fn str_eq(a: &str, b: &str) -> (r: bool)
    ensures
        r == (a@ == b@),
{
    let x = a.to_owned();
    let y = b.to_owned();
    x.eq(&y)
}

/// Cut a string to at most `max` characters (character count, not bytes).
pub fn truncate(s: &str, max: usize) -> (r: &str)
    ensures
        r@ == take_at_most(s@, max as int),
{
    let n: usize = s.unicode_len();
    if n <= max {
        s
    } else {
        s.substring_char(0, max)
    }
}

/// The canonical channel name of a feed title (see [`canonical_name`]); also
/// the key under which commands look a feed up.
pub fn title_to_channel_name(s: &str) -> (r: String)
    ensures
        r@ == canonical_name(s@),
        r@.len() <= 95,
        forall|i: int| 0 <= i < r@.len() ==> is_allowed_char(#[trigger] r@[i]),
{
    let chars = str_to_chars(s);
    let lowered = lower_chars(&chars);
    let collapsed = collapse_chars(&lowered);
    let kept = keep_chars(&collapsed);
    let cut = take_chars(&kept, 95);
    proof {
        lemma_keep_allowed_all_allowed(collapse_spaces(lower_seq(s@)));
    }
    chars_to_string(&cut)
}

/// Lowercase every character of `v`.
fn lower_chars(v: &Vec<char>) -> (r: Vec<char>)
    ensures
        r@ == lower_seq(v@),
{
    let mut r: Vec<char> = Vec::new();
    let mut i: usize = 0;
    while i < v.len()
        invariant
            i <= v@.len(),
            r@ == lower_seq(v@.subrange(0, i as int)),
        decreases v@.len() - i,
    {
        let c = v[i];
        let lc: char = if 'A' <= c && c <= 'Z' {
            (((c as u8) + 32u8)) as char
        } else {
            c
        };
        assert(lc == to_lower_char(c));
        r.push(lc);
        assert(r@ =~= lower_seq(v@.subrange(0, (i + 1) as int)));
        i = i + 1;
    }
    assert(v@.subrange(0, v@.len() as int) =~= v@);
    r
}

/// Replace every whitespace run of `v` by a single `-`.
fn collapse_chars(v: &Vec<char>) -> (r: Vec<char>)
    ensures
        r@ == collapse_spaces(v@),
{
    let mut r: Vec<char> = Vec::new();
    let mut prev_space: bool = false;
    let mut i: usize = 0;
    proof {
        assert(v@.subrange(0, v@.len() as int) =~= v@);
        assert(r@ + collapse_from(v@, false) =~= collapse_from(v@, false));
    }
    while i < v.len()
        invariant
            i <= v@.len(),
            collapse_spaces(v@) == r@ + collapse_from(v@.subrange(i as int, v@.len() as int), prev_space),
        decreases v@.len() - i,
    {
        let ghost pre = v@.subrange(i as int, v@.len() as int);
        assert(pre[0] == v@[i as int]);
        assert(pre.drop_first() =~= v@.subrange((i + 1) as int, v@.len() as int));
        let c = v[i];
        let space = c == ' ' || c == '\t' || c == '\n' || c == '\r' || c == '\u{b}' || c == '\u{c}';
        assert(space == is_space_char(c));
        let ghost r_old = r@;
        if space {
            if !prev_space {
                r.push('-');
                proof {
                    assert(r@ =~= r_old + seq!['-']);
                    assert((r_old + seq!['-']) + collapse_from(pre.drop_first(), true) =~= r_old
                        + (seq!['-'] + collapse_from(pre.drop_first(), true)));
                }
            }
            prev_space = true;
        } else {
            r.push(c);
            prev_space = false;
            proof {
                assert(r@ =~= r_old + seq![c]);
                assert((r_old + seq![c]) + collapse_from(pre.drop_first(), false) =~= r_old + (seq![
                    c,
                ] + collapse_from(pre.drop_first(), false)));
            }
        }
        i = i + 1;
    }
    assert(v@.subrange(v@.len() as int, v@.len() as int) =~= Seq::<char>::empty());
    r
}

/// Keep only the characters allowed in a canonical name.
fn keep_chars(v: &Vec<char>) -> (r: Vec<char>)
    ensures
        r@ == keep_allowed(v@),
{
    let mut r: Vec<char> = Vec::new();
    let mut i: usize = 0;
    while i < v.len()
        invariant
            i <= v@.len(),
            r@ == keep_allowed(v@.subrange(0, i as int)),
        decreases v@.len() - i,
    {
        let ghost pre = v@.subrange(0, (i + 1) as int);
        assert(pre.drop_last() =~= v@.subrange(0, i as int));
        assert(pre.last() == v@[i as int]);
        let c = v[i];
        let allowed = ('a' <= c && c <= 'z') || ('0' <= c && c <= '9') || c == '_' || c == '-';
        assert(allowed == is_allowed_char(c));
        if allowed {
            r.push(c);
        }
        i = i + 1;
    }
    assert(v@.subrange(0, v@.len() as int) =~= v@);
    r
}

/// Keep at most the first `n` characters.
fn take_chars(v: &Vec<char>, n: usize) -> (r: Vec<char>)
    ensures
        r@ == take_at_most(v@, n as int),
{
    let mut r: Vec<char> = Vec::new();
    let mut i: usize = 0;
    let limit: usize = if v.len() <= n {
        v.len()
    } else {
        n
    };
    while i < limit
        invariant
            limit <= v@.len(),
            i <= limit,
            r@ == v@.subrange(0, i as int),
        decreases limit - i,
    {
        let c = v[i];
        r.push(c);
        assert(r@ =~= v@.subrange(0, (i + 1) as int));
        i = i + 1;
    }
    if v.len() <= n {
        assert(v@.subrange(0, limit as int) =~= v@);
    }
    r
}

/// True when `p` is a prefix of `s`.
pub fn has_prefix(s: &str, p: &str) -> (r: bool)
    ensures
        r == p@.is_prefix_of(s@),
{
    let np: usize = p.unicode_len();
    let ns: usize = s.unicode_len();
    if np > ns {
        return false;
    }
    let head = s.substring_char(0, np);
    str_eq(head, p)
}

/// The name of a feed channel's companion thread for read items.
pub open spec fn read_name(s: Seq<char>) -> Seq<char> {
    "read-"@ + take_at_most(s, 95)
}

/// The companion-thread name for a feed channel name.
pub fn read_channel_name(name: &str) -> (r: String)
    ensures
        r@ == read_name(name@),
{
    let mut s = String::from_str("read-");
    s.append(truncate(name, 95));
    s
}

/// The feed channel name a companion-thread name points back to: the
/// `read-` prefix is stripped; a name without it stands for itself.
pub open spec fn unread_name(s: Seq<char>) -> Seq<char> {
    let t = take_at_most(s, 100);
    if "read-"@.is_prefix_of(t) {
        t.skip(5)
    } else {
        s
    }
}

/// Map a thread name back to its feed channel name (see [`unread_name`]).
pub fn unread_channel_name(name: &str) -> (r: String)
    ensures
        r@ == unread_name(name@),
{
    proof {
        reveal_strlit("read-");
    }
    let t = truncate(name, 100);
    if has_prefix(t, "read-") {
        let n: usize = t.unicode_len();
        let rest = t.substring_char(5, n);
        proof {
            assert(t@.skip(5) =~= t@.subrange(5, t@.len() as int));
        }
        rest.to_owned()
    } else {
        name.to_owned()
    }
}

/// One field of a rendered message embed.
#[derive(Clone, Debug, PartialEq, Eq)]
pub struct EmbedField {
    pub name: String,
    pub value: String,
    pub inline: bool,
}

/// A rendered platform message for one feed item: everything the message
/// shows, as plain values.  Rendering is pure; sending it is the caller's
/// business.
#[derive(Clone, Debug, PartialEq, Eq)]
pub struct EmbedData {
    pub author_name: Option<String>,
    pub author_url: Option<String>,
    pub image: Option<String>,
    pub title: String,
    pub timestamp: Option<i64>,
    pub description: String,
    pub fields: Vec<EmbedField>,
}

/// The decimal rendering of an integer, as core's formatter produces it.
pub uninterp spec fn decimal_of(n: int) -> Seq<char>;

/// Relies on core's `Display` for `i64`: the decimal rendering of the value,
/// which depends on the value alone.
#[verifier::external_body]
pub(crate) fn i64_to_string(n: i64) -> (r: String)
    ensures
        r@ == decimal_of(n as int),
{
    format!("{}", n)
}

/// The channel an item is published to: unread items go to the feed's own
/// channel, read items to its companion thread.
pub fn publish_channel_name(feed_title: &str, read: bool) -> (r: String)
    ensures
        r@ == (if read {
            read_name(canonical_name(feed_title@))
        } else {
            canonical_name(feed_title@)
        }),
{
    let name = title_to_channel_name(feed_title);
    if read {
        read_channel_name(name.as_str())
    } else {
        name
    }
}

/// Every character that [`keep_allowed`] keeps is an allowed character.
proof fn lemma_keep_allowed_all_allowed(s: Seq<char>)
    ensures
        forall|i: int| 0 <= i < keep_allowed(s).len() ==> is_allowed_char(#[trigger] keep_allowed(s)[i]),
    decreases s.len(),
{
    if s.len() > 0 {
        lemma_keep_allowed_all_allowed(s.drop_last());
        let rest = keep_allowed(s.drop_last());
        if is_allowed_char(s.last()) {
            assert(keep_allowed(s) == rest.push(s.last()));
            assert forall|i: int|
                0 <= i < keep_allowed(s).len() implies is_allowed_char(
                #[trigger] keep_allowed(s)[i],
            ) by {
                if i < rest.len() {
                    assert(keep_allowed(s)[i] == rest[i]);
                } else {
                    assert(keep_allowed(s)[i] == s.last());
                }
            }
        } else {
            assert(keep_allowed(s) == rest);
        }
    }
}

/// Lowercasing leaves a sequence without uppercase characters unchanged.
proof fn lemma_lower_identity(s: Seq<char>)
    requires
        forall|i: int| 0 <= i < s.len() ==> is_allowed_char(#[trigger] s[i]),
    ensures
        lower_seq(s) == s,
{
    assert(lower_seq(s) =~= s);
}

/// Collapsing leaves a sequence without whitespace unchanged.
proof fn lemma_collapse_identity(s: Seq<char>)
    requires
        forall|i: int| 0 <= i < s.len() ==> is_allowed_char(#[trigger] s[i]),
    ensures
        collapse_from(s, false) == s,
    decreases s.len(),
{
    if s.len() == 0 {
        assert(collapse_from(s, false) =~= s);
    } else {
        assert(is_allowed_char(s[0]));
        assert(!is_space_char(s[0]));
        lemma_collapse_identity(s.drop_first());
        assert(collapse_from(s, false) =~= seq![s[0]] + s.drop_first());
        assert(seq![s[0]] + s.drop_first() =~= s);
    }
}

/// Filtering leaves a sequence of allowed characters unchanged.
proof fn lemma_keep_identity(s: Seq<char>)
    requires
        forall|i: int| 0 <= i < s.len() ==> is_allowed_char(#[trigger] s[i]),
    ensures
        keep_allowed(s) == s,
    decreases s.len(),
{
    if s.len() == 0 {
        assert(keep_allowed(s) =~= s);
    } else {
        assert(forall|i: int|
            0 <= i < s.drop_last().len() ==> is_allowed_char(#[trigger] s.drop_last()[i]));
        lemma_keep_identity(s.drop_last());
        assert(keep_allowed(s) =~= s);
    }
}

/// The canonical name map is idempotent: canonicalizing a canonical name
/// gives it back unchanged.
pub proof fn lemma_canonical_name_idempotent(s: Seq<char>)
    ensures
        canonical_name(canonical_name(s)) == canonical_name(s),
{
    let t = canonical_name(s);
    lemma_keep_allowed_all_allowed(collapse_spaces(lower_seq(s)));
    assert(forall|i: int| 0 <= i < t.len() ==> is_allowed_char(#[trigger] t[i]));
    lemma_lower_identity(t);
    lemma_collapse_identity(t);
    lemma_keep_identity(t);
    assert(t.len() <= 95);
    assert(take_at_most(t, 95) == t);
}

} // verus!
