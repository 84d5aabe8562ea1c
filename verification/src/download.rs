//! Where a downloaded setup lands, and under which name.
//!
//! Security-critical: the server-supplied filename is reduced to a single
//! path component so it can never escape the setups directory, and an
//! existing same-named file is never silently clobbered. The fetch, the
//! temp-file write and the rename are the application's; the decisions are
//! here: the safe name, the numbered sibling names, and the step-by-step
//! placement under a [`ConflictPolicy`].
use vstd::prelude::*;

use crate::error::Error;
use crate::pathstr::{is_sep, lemma_last_index_of, last_index_of, segments, split_segments};
use crate::settings::ConflictPolicy;
use crate::sim::Sim;
use crate::text::{
    decimal, debug_quoted, debug_text, find_sub, find_sub_chars, is_ws, push_decimal,
    slice_chars, string_of, to_chars, trim, trim_chars, trim_end, trim_start,
};

verus! {

/// How a downloaded file landed on disk relative to what was already there.
#[derive(Debug, Clone, Copy, PartialEq, Eq, Structural)]
pub enum InstallAction {
    /// No file with that name existed; written fresh.
    Installed,
    /// A different file existed and was replaced.
    Replaced,
    /// A different file existed; this one was written under a numbered
    /// sibling name.
    KeptBoth,
    /// A byte-identical copy was already on disk; nothing was written.
    AlreadyInstalled,
}

/// A setup file written into a sim folder.
#[derive(Debug, Clone)]
pub struct InstalledSetup {
    /// Path of the setup file on disk.
    pub path: String,
    /// How the file landed relative to what was already there.
    pub action: InstallAction,
    /// Which sim it was installed for.
    pub sim: Sim,
    /// Car the setup is for.
    pub car: String,
    /// Track subfolder, for sims that nest by track.
    pub track: Option<String>,
    /// Setup display name, if the server provided one.
    pub name: Option<String>,
}

// ---------------------------------------------------------------- setup ids

/// `u8::is_ascii_hexdigit`, on characters.
pub open spec fn is_hex(c: char) -> bool {
    ('0' <= c && c <= '9') || ('a' <= c && c <= 'f') || ('A' <= c && c <= 'F')
}

/// The loose RFC-4122 shape, `8-4-4-4-12` hex digits. A text with any
/// non-ASCII character fails it, exactly as the byte-wise check does.
pub open spec fn is_uuid_text(s: Seq<char>) -> bool {
    &&& s.len() == 36
    &&& forall|i: int|
        0 <= i < 36 ==> if i == 8 || i == 13 || i == 18 || i == 23 {
            #[trigger] s[i] == '-'
        } else {
            is_hex(s[i])
        }
}

pub open spec fn setups_marker() -> Seq<char> {
    seq!['/', 's', 'e', 't', 'u', 'p', 's', '/']
}

pub open spec fn is_stop(c: char) -> bool {
    c == '/' || c == '?' || c == '#'
}

/// `s` up to its first `/`, `?` or `#`.
pub open spec fn until_stop(s: Seq<char>) -> Seq<char>
    decreases s.len(),
{
    if s.len() == 0 || is_stop(s[0]) {
        Seq::empty()
    } else {
        seq![s[0]] + until_stop(s.drop_first())
    }
}

/// The text checked as a setup id: the path segment after the first
/// `/setups/` of the trimmed input, or the whole trimmed input.
pub open spec fn uuid_candidate(input: Seq<char>) -> Seq<char> {
    let t = trim(input);
    match find_sub(t, setups_marker()) {
        Some(i) => until_stop(t.skip(i + 8)),
        None => t,
    }
}

/// The setup id a pasted link or bare id names, if it has the id's shape.
pub open spec fn setup_uuid_of(input: Seq<char>) -> Option<Seq<char>> {
    let c = uuid_candidate(input);
    if is_uuid_text(c) {
        Some(c)
    } else {
        None
    }
}

fn is_hex_char(c: char) -> (r: bool)
    ensures
        r == is_hex(c),
{
    ('0' <= c && c <= '9') || ('a' <= c && c <= 'f') || ('A' <= c && c <= 'F')
}

/// Loose RFC-4122 shape check (`8-4-4-4-12` hex).
pub fn is_uuid(s: &Vec<char>) -> (r: bool)
    ensures
        r == is_uuid_text(s@),
{
    if s.len() != 36 {
        return false;
    }
    let mut i: usize = 0;
    while i < 36
        invariant
            s@.len() == 36,
            i <= 36,
            forall|j: int|
                0 <= j < i ==> if j == 8 || j == 13 || j == 18 || j == 23 {
                    #[trigger] s@[j] == '-'
                } else {
                    is_hex(s@[j])
                },
        decreases 36 - i,
    {
        let c = s[i];
        let ok = if i == 8 || i == 13 || i == 18 || i == 23 {
            c == '-'
        } else {
            is_hex_char(c)
        };
        if !ok {
            return false;
        }
        i = i + 1;
    }
    true
}

fn until_stop_chars(v: &Vec<char>) -> (r: Vec<char>)
    ensures
        r@ == until_stop(v@),
{
    let mut i: usize = 0;
    while i < v.len() && !(v[i] == '/' || v[i] == '?' || v[i] == '#')
        invariant
            i <= v@.len(),
            forall|j: int| 0 <= j < i ==> !is_stop(v@[j]),
        decreases v@.len() - i,
    {
        i = i + 1;
    }
    let r = slice_chars(v, 0, i);
    proof {
        lemma_until_stop(v@, i as int);
    }
    r
}

proof fn lemma_until_stop(s: Seq<char>, i: int)
    requires
        0 <= i <= s.len(),
        forall|j: int| 0 <= j < i ==> !is_stop(s[j]),
        i == s.len() || is_stop(s[i]),
    ensures
        until_stop(s) == s.subrange(0, i),
    decreases s.len(),
{
    if s.len() == 0 || is_stop(s[0]) {
        assert(s.subrange(0, i) =~= Seq::<char>::empty());
    } else {
        let t = s.drop_first();
        assert forall|j: int| 0 <= j < i - 1 implies !is_stop(t[j]) by {
            assert(t[j] == s[j + 1]);
        }
        lemma_until_stop(t, i - 1);
        assert(s.subrange(0, i) =~= seq![s[0]] + t.subrange(0, i - 1));
    }
}

/// Extract a setup id from a pasted setup URL, or accept a bare id. `None`
/// when neither is present.
pub fn extract_setup_uuid(input: &str) -> (r: Option<String>)
    ensures
        match setup_uuid_of(input@) {
            Some(id) => r matches Some(s) && s@ == id,
            None => r is None,
        },
{
    let t = trim_chars(&to_chars(input));
    let marker: Vec<char> = vec!['/', 's', 'e', 't', 'u', 'p', 's', '/'];
    assert(marker@ =~= setups_marker());
    proof {
        crate::text::lemma_find_sub(t@, marker@);
    }
    let candidate = match find_sub_chars(&t, &marker) {
        Some(i) => {
            let ghost k = find_sub(t@, marker@)->0;
            assert(0 <= k && k + 8 <= t.len());
            assert(i == k);
            let rest = slice_chars(&t, i + 8, t.len());
            assert(rest@ =~= t@.skip(i + 8));
            until_stop_chars(&rest)
        },
        None => t,
    };
    if is_uuid(&candidate) {
        Some(string_of(&candidate))
    } else {
        None
    }
}

proof fn lemma_trim_of_unpadded(s: Seq<char>)
    requires
        forall|i: int| 0 <= i < s.len() ==> !is_ws(#[trigger] s[i]),
    ensures
        trim(s) == s,
{
    assert(trim_start(s) == s);
    assert(trim_end(s) == s);
}

/// Trailing whitespace is dropped only up to the last character that is
/// not whitespace.
proof fn lemma_trim_end_keeps(x: Seq<char>, k: int)
    requires
        0 <= k < x.len(),
        !is_ws(x[k]),
    ensures
        k < trim_end(x).len() <= x.len(),
        trim_end(x) == x.take(trim_end(x).len() as int),
    decreases x.len(),
{
    if is_ws(x.last()) {
        let d = x.drop_last();
        assert(d[k] == x[k]);
        lemma_trim_end_keeps(d, k);
        let n = trim_end(d).len() as int;
        assert(d.take(n) =~= x.take(n));
    } else {
        assert(x.take(x.len() as int) =~= x);
    }
}

/// A setup link's id is read whole: after the first `/setups/`, the id
/// ends where a `/`, `?` or `#` begins, so a trailing slash, a query or a
/// fragment never hides it.
pub proof fn law_link_id_ends_at_path_query_or_fragment(
    prefix: Seq<char>,
    id: Seq<char>,
    suffix: Seq<char>,
)
    requires
        is_uuid_text(id),
        suffix.len() > 0,
        suffix[0] == '/' || suffix[0] == '?' || suffix[0] == '#',
        prefix.len() == 0 || !is_ws(prefix[0]),
        forall|k: int|
            0 <= k < prefix.len() ==> #[trigger] (prefix + setups_marker()).subrange(k, k + 8)
                != setups_marker(),
    ensures
        setup_uuid_of(prefix + setups_marker() + id + suffix) == Some(id),
{
    let m = setups_marker();
    let x = prefix + m + id + suffix;
    let p = prefix.len() as int;
    assert(x[0] == if p > 0 {
        prefix[0]
    } else {
        '/'
    });
    assert(trim_start(x) == x);
    let k0 = p + 44;
    assert(x[k0] == suffix[0]);
    lemma_trim_end_keeps(x, k0);
    let t = trim(x);
    let n = t.len() as int;
    assert(t == x.take(n));
    assert(t.subrange(p, p + 8) =~= m);
    assert forall|j: int| 0 <= j < p implies #[trigger] t.subrange(j, j + 8) != m by {
        assert(t.subrange(j, j + 8) =~= (prefix + m).subrange(j, j + 8));
    }
    crate::text::lemma_find_sub(t, m);
    match find_sub(t, m) {
        Some(i) => {
            if i > p {
                assert(t.subrange(p, p + 8) != m);
            }
            assert(i == p);
        },
        None => {
            assert(t.subrange(p, p + 8) != m);
        },
    }
    let rest = t.skip(p + 8);
    assert forall|j: int| 0 <= j < 36 implies !is_stop(#[trigger] rest[j]) by {
        assert(rest[j] == id[j]);
        assert(if j == 8 || j == 13 || j == 18 || j == 23 {
            id[j] == '-'
        } else {
            is_hex(id[j])
        });
    }
    assert(rest[36] == suffix[0]);
    lemma_until_stop(rest, 36);
    assert(rest.subrange(0, 36) =~= id);
}

/// A bare setup id is accepted as it is: extracting from an id gives the
/// id back.
pub proof fn law_bare_setup_id_is_accepted(id: Seq<char>)
    requires
        is_uuid_text(id),
    ensures
        setup_uuid_of(id) == Some(id),
{
    assert forall|i: int| 0 <= i < id.len() implies !is_ws(#[trigger] id[i]) by {
        assert(if i == 8 || i == 13 || i == 18 || i == 23 {
            id[i] == '-'
        } else {
            is_hex(id[i])
        });
    }
    lemma_trim_of_unpadded(id);
    crate::text::lemma_find_sub(id, setups_marker());
    if find_sub(id, setups_marker()) is Some {
        let k = find_sub(id, setups_marker())->0;
        assert(id.subrange(k, k + 8)[0] == '/');
        assert(id[k] == '/');
        assert(if k == 8 || k == 13 || k == 18 || k == 23 {
            id[k] == '-'
        } else {
            is_hex(id[k])
        });
    }
}

// ------------------------------------------------------------ safe file names

/// The text after the last `/` or `\` (all of it when there is none).
pub open spec fn last_segment(s: Seq<char>) -> Seq<char> {
    segments(s).last()
}

/// `str::replace("..", "")`: every `..` removed, scanning left to right.
pub open spec fn without_dot_pairs(s: Seq<char>) -> Seq<char>
    decreases s.len(),
{
    if s.len() == 0 {
        Seq::empty()
    } else if s.len() >= 2 && s[0] == '.' && s[1] == '.' {
        without_dot_pairs(s.skip(2))
    } else {
        seq![s[0]] + without_dot_pairs(s.skip(1))
    }
}

/// A server-supplied name reduced to a single safe component: its last
/// segment, with every `..` removed, trimmed.
pub open spec fn sanitized(name: Seq<char>) -> Seq<char> {
    trim(without_dot_pairs(last_segment(name)))
}

fn without_dot_pairs_chars(v: &Vec<char>) -> (r: Vec<char>)
    ensures
        r@ == without_dot_pairs(v@),
{
    let mut out: Vec<char> = Vec::new();
    let mut i: usize = 0;
    assert(v@.skip(0) =~= v@);
    while i < v.len()
        invariant
            i <= v@.len(),
            out@ + without_dot_pairs(v@.skip(i as int)) == without_dot_pairs(v@),
        decreases v@.len() - i,
    {
        let ghost t = v@.skip(i as int);
        if i + 1 < v.len() && v[i] == '.' && v[i + 1] == '.' {
            assert(t.skip(2) =~= v@.skip(i + 2));
            i = i + 2;
        } else {
            assert(t.skip(1) =~= v@.skip(i + 1));
            let ghost before = out@;
            out.push(v[i]);
            assert(out@ + without_dot_pairs(v@.skip(i + 1)) =~= before + (seq![t[0]]
                + without_dot_pairs(t.skip(1))));
            i = i + 1;
        }
    }
    assert(without_dot_pairs(v@.skip(i as int)) =~= Seq::<char>::empty());
    assert(out@ =~= without_dot_pairs(v@));
    out
}

fn sanitize_chars(v: &Vec<char>) -> (r: Vec<char>)
    ensures
        r@ == sanitized(v@),
{
    let segs = split_segments(v);
    proof {
        crate::pathstr::lemma_segments_nonempty(v@);
    }
    let last = &segs[segs.len() - 1];
    let cleaned = without_dot_pairs_chars(last);
    trim_chars(&cleaned)
}

/// Reduce a server-supplied name to a single, safe filename component:
/// directory parts and every `..` are stripped.
pub fn sanitize_filename(name: &str) -> (r: String)
    ensures
        r@ == sanitized(name@),
{
    string_of(&sanitize_chars(&to_chars(name)))
}

/// No `..` anywhere in `s`.
pub open spec fn no_dot_pair(s: Seq<char>) -> bool {
    forall|i: int| 0 <= i && i + 1 < s.len() ==> !(#[trigger] s[i] == '.' && s[i + 1] == '.')
}

/// No `/` or `\` anywhere in `s`.
pub open spec fn no_separator(s: Seq<char>) -> bool {
    forall|i: int| 0 <= i < s.len() ==> !is_sep(#[trigger] s[i])
}

proof fn lemma_last_segment_has_no_separator(s: Seq<char>)
    ensures
        no_separator(last_segment(s)),
    decreases s.len(),
{
    crate::pathstr::lemma_segments_nonempty(s);
    if s.len() > 0 {
        let p = s.drop_last();
        lemma_last_segment_has_no_separator(p);
        crate::pathstr::lemma_segments_nonempty(p);
        if !is_sep(s.last()) {
            let r = segments(p);
            assert(segments(s).last() == r.last().push(s.last()));
        }
    }
}

proof fn lemma_without_dot_pairs_head(s: Seq<char>)
    requires
        s.len() > 0,
        !(s.len() >= 2 && s[0] == '.' && s[1] == '.'),
    ensures
        without_dot_pairs(s).len() > 0,
        without_dot_pairs(s)[0] == s[0],
{
}

proof fn lemma_without_dot_pairs_safe(s: Seq<char>)
    ensures
        no_dot_pair(without_dot_pairs(s)),
        no_separator(s) ==> no_separator(without_dot_pairs(s)),
    decreases s.len(),
{
    if s.len() == 0 {
    } else if s.len() >= 2 && s[0] == '.' && s[1] == '.' {
        lemma_without_dot_pairs_safe(s.skip(2));
        if no_separator(s) {
            assert(no_separator(s.skip(2))) by {
                assert forall|i: int| 0 <= i < s.skip(2).len() implies !is_sep(
                    #[trigger] s.skip(2)[i],
                ) by {
                    assert(s.skip(2)[i] == s[i + 2]);
                }
            }
        }
    } else {
        let t = s.skip(1);
        lemma_without_dot_pairs_safe(t);
        let r = without_dot_pairs(s);
        let rt = without_dot_pairs(t);
        assert(r == seq![s[0]] + rt);
        if s[0] == '.' && rt.len() > 0 {
            assert(t.len() > 0);
            assert(!(t.len() >= 2 && t[0] == '.' && t[1] == '.')) by {
                assert(t[0] == s[1]);
            }
            lemma_without_dot_pairs_head(t);
            assert(rt[0] == s[1]);
        }
        assert forall|i: int| 0 <= i && i + 1 < r.len() implies !(#[trigger] r[i] == '.' && r[i
            + 1] == '.') by {
            if i >= 1 {
                assert(r[i] == rt[i - 1]);
                assert(r[i + 1] == rt[i]);
            }
        }
        if no_separator(s) {
            assert(no_separator(t)) by {
                assert forall|i: int| 0 <= i < t.len() implies !is_sep(#[trigger] t[i]) by {
                    assert(t[i] == s[i + 1]);
                }
            }
            assert forall|i: int| 0 <= i < r.len() implies !is_sep(#[trigger] r[i]) by {
                if i >= 1 {
                    assert(r[i] == rt[i - 1]);
                }
            }
        }
    }
}

proof fn lemma_trim_start_is_suffix(s: Seq<char>)
    ensures
        exists|lo: int| 0 <= lo <= s.len() && trim_start(s) == s.skip(lo),
    decreases s.len(),
{
    if s.len() > 0 && is_ws(s[0]) {
        lemma_trim_start_is_suffix(s.drop_first());
        let lo = choose|lo: int|
            0 <= lo <= s.drop_first().len() && trim_start(s.drop_first()) == s.drop_first().skip(
                lo,
            );
        assert(s.drop_first().skip(lo) =~= s.skip(lo + 1));
    } else {
        assert(s.skip(0) =~= s);
    }
}

proof fn lemma_trim_end_is_prefix(s: Seq<char>)
    ensures
        exists|hi: int| 0 <= hi <= s.len() && trim_end(s) == s.take(hi),
    decreases s.len(),
{
    if s.len() > 0 && is_ws(s.last()) {
        lemma_trim_end_is_prefix(s.drop_last());
        let hi = choose|hi: int|
            0 <= hi <= s.drop_last().len() && trim_end(s.drop_last()) == s.drop_last().take(hi);
        assert(s.drop_last().take(hi) =~= s.take(hi));
    } else {
        assert(s.take(s.len() as int) =~= s);
    }
}

proof fn lemma_trim_keeps_safety(s: Seq<char>)
    requires
        no_dot_pair(s),
        no_separator(s),
    ensures
        no_dot_pair(trim(s)),
        no_separator(trim(s)),
{
    lemma_trim_start_is_suffix(s);
    let lo = choose|lo: int| 0 <= lo <= s.len() && trim_start(s) == s.skip(lo);
    let a = s.skip(lo);
    lemma_trim_end_is_prefix(a);
    let hi = choose|hi: int| 0 <= hi <= a.len() && trim_end(a) == a.take(hi);
    let r = a.take(hi);
    assert forall|i: int| 0 <= i < r.len() implies r[i] == s[i + lo] by {}
    assert forall|i: int| 0 <= i && i + 1 < r.len() implies !(#[trigger] r[i] == '.' && r[i + 1]
        == '.') by {
        assert(r[i] == s[i + lo]);
        assert(r[i + 1] == s[i + 1 + lo]);
    }
    assert forall|i: int| 0 <= i < r.len() implies !is_sep(#[trigger] r[i]) by {
        assert(r[i] == s[i + lo]);
    }
}

/// Whatever name the server sends, the sanitized result is a single path
/// component: it holds no `/` or `\`, and no `..` anywhere.
pub proof fn law_sanitized_name_cannot_escape(name: Seq<char>)
    ensures
        no_separator(sanitized(name)),
        no_dot_pair(sanitized(name)),
{
    let last = last_segment(name);
    lemma_last_segment_has_no_separator(name);
    lemma_without_dot_pairs_safe(last);
    lemma_trim_keeps_safety(without_dot_pairs(last));
}


// ------------------------------------------------------------ numbered names

/// ` (n)`, the suffix a numbered sibling carries.
pub open spec fn copy_suffix(n: nat) -> Seq<char> {
    seq![' ', '('] + decimal(n) + seq![')']
}

/// `quali.sto` → `quali (2).sto`; a name with no extension, or whose only
/// dot is its first character, gets the suffix at the end.
pub open spec fn numbered(name: Seq<char>, n: nat) -> Seq<char> {
    match last_index_of(name, '.') {
        Some(i) => if i > 0 {
            name.take(i) + copy_suffix(n) + name.skip(i)
        } else {
            name + copy_suffix(n)
        },
        None => name + copy_suffix(n),
    }
}

fn last_index_chars(v: &Vec<char>, c: char) -> (r: Option<usize>)
    ensures
        match last_index_of(v@, c) {
            Some(i) => r == Some(i as usize),
            None => r is None,
        },
{
    proof {
        lemma_last_index_of(v@, c);
    }
    let mut i: usize = v.len();
    while i > 0
        invariant
            i <= v@.len(),
            forall|j: int| i <= j < v@.len() ==> v@[j] != c,
            match last_index_of(v@, c) {
                Some(k) => 0 <= k < v@.len() && v@[k] == c && forall|j: int|
                    k < j < v@.len() ==> v@[j] != c,
                None => forall|j: int| 0 <= j < v@.len() ==> v@[j] != c,
            },
        decreases i,
    {
        if v[i - 1] == c {
            let ghost k = last_index_of(v@, c)->0;
            assert(last_index_of(v@, c) is Some);
            assert(k < v.len());
            assert(k == i - 1);
            return Some(i - 1);
        }
        i = i - 1;
    }
    None
}

fn push_chars(s: &mut String, v: &Vec<char>)
    ensures
        final(s)@ == old(s)@ + v@,
{
    let mut i: usize = 0;
    while i < v.len()
        invariant
            i <= v@.len(),
            s@ == old(s)@ + v@.take(i as int),
        decreases v@.len() - i,
    {
        s.push(v[i]);
        i = i + 1;
        assert(s@ =~= old(s)@ + v@.take(i as int));
    }
    assert(v@.take(v@.len() as int) =~= v@);
}

fn push_copy_suffix(s: &mut String, n: u32)
    ensures
        final(s)@ == old(s)@ + copy_suffix(n as nat),
{
    s.push(' ');
    s.push('(');
    push_decimal(s, n as u64);
    s.push(')');
    assert(final(s)@ =~= old(s)@ + copy_suffix(n as nat));
}

/// The name of the `n`th copy of `name`.
pub fn numbered_name(name: &str, n: u32) -> (r: String)
    ensures
        r@ == numbered(name@, n as nat),
{
    let v = to_chars(name);
    let mut out = String::new();
    proof {
        lemma_last_index_of(v@, '.');
    }
    match last_index_chars(&v, '.') {
        Some(i) => {
            let ghost k = last_index_of(v@, '.')->0;
            assert(k < v.len());
            assert(i == k);
            if i > 0 {
                push_chars(&mut out, &slice_chars(&v, 0, i));
                push_copy_suffix(&mut out, n);
                push_chars(&mut out, &slice_chars(&v, i, v.len()));
            } else {
                push_chars(&mut out, &v);
                push_copy_suffix(&mut out, n);
            }
        },
        None => {
            push_chars(&mut out, &v);
            push_copy_suffix(&mut out, n);
        },
    }
    assert(out@ =~= numbered(name@, n as nat));
    out
}

/// A numbered copy's name is always longer than, so never the same as, the
/// name it numbers.
pub proof fn law_numbered_name_differs(name: Seq<char>, n: nat)
    ensures
        numbered(name, n).len() > name.len(),
{
    lemma_decimal_nonempty(n);
    lemma_last_index_of(name, '.');
}

proof fn lemma_decimal_nonempty(n: nat)
    ensures
        decimal(n).len() >= 1,
    decreases n,
{
    if n >= 10 {
        lemma_decimal_nonempty(n / 10);
    }
}

// ------------------------------------------------------------------ placing

/// The highest numbered sibling tried before giving up.
pub const MAX_COPIES: u32 = 999;

/// What the application found at the name it was told to probe.
#[derive(Debug, Clone, Copy, PartialEq, Eq, Structural)]
pub enum Probe {
    /// No file of that name exists.
    Missing,
    /// A file of that name holds exactly the downloaded bytes.
    Identical,
    /// A file of that name holds other bytes.
    Different,
}

/// The next thing to do with the fully written temp file. Slot 1 is the
/// plain name; slot `n > 1` is [`numbered_name`]`(name, n)`.
#[derive(Debug, Clone, Copy, PartialEq, Eq, Structural)]
pub enum Placement {
    /// Rename the temp file onto the slot's name; it landed as `action`.
    Move { slot: u32, action: InstallAction },
    /// Remove the temp file: the slot already holds these bytes.
    Discard { slot: u32 },
    /// Probe the next slot.
    Next { slot: u32 },
    /// Every slot up to [`MAX_COPIES`] is taken by other bytes.
    GiveUp,
}

/// One step of placing a download, given what was found at `slot`.
///
/// Identical bytes short-circuit to "already installed" under any policy,
/// so re-equipping is idempotent; a different file is replaced only under
/// [`ConflictPolicy::Overwrite`], otherwise the walk moves to the next
/// numbered sibling.
pub open spec fn placement(policy: ConflictPolicy, slot: u32, seen: Probe) -> Placement {
    match seen {
        Probe::Missing => Placement::Move {
            slot,
            action: if slot == 1 {
                InstallAction::Installed
            } else {
                InstallAction::KeptBoth
            },
        },
        Probe::Identical => Placement::Discard { slot },
        Probe::Different => if slot == 1 && policy == ConflictPolicy::Overwrite {
            Placement::Move { slot, action: InstallAction::Replaced }
        } else if slot < MAX_COPIES {
            Placement::Next { slot: (slot + 1) as u32 }
        } else {
            Placement::GiveUp
        },
    }
}

/// The next placement step for the probe result `seen` at `slot`.
pub fn next_placement(policy: ConflictPolicy, slot: u32, seen: Probe) -> (r: Placement)
    requires
        1 <= slot <= MAX_COPIES,
    ensures
        r == placement(policy, slot, seen),
{
    match seen {
        Probe::Missing => {
            let action = if slot == 1 {
                InstallAction::Installed
            } else {
                InstallAction::KeptBoth
            };
            Placement::Move { slot, action }
        },
        Probe::Identical => Placement::Discard { slot },
        Probe::Different => {
            if slot == 1 && policy == ConflictPolicy::Overwrite {
                Placement::Move { slot, action: InstallAction::Replaced }
            } else if slot < MAX_COPIES {
                Placement::Next { slot: slot + 1 }
            } else {
                Placement::GiveUp
            }
        },
    }
}

/// The file name of `slot`: the name itself for slot 1, a numbered sibling
/// after that.
pub open spec fn slot_file(name: Seq<char>, slot: u32) -> Seq<char> {
    if slot <= 1 {
        name
    } else {
        numbered(name, slot as nat)
    }
}

pub fn slot_name(name: &str, slot: u32) -> (r: String)
    ensures
        r@ == slot_file(name@, slot),
{
    if slot <= 1 {
        String::from_str(name)
    } else {
        numbered_name(name, slot)
    }
}

/// Under [`ConflictPolicy::KeepBoth`] an existing file is never replaced:
/// the temp file only ever moves onto a name where nothing was found.
pub proof fn law_keep_both_never_replaces(slot: u32, seen: Probe)
    ensures
        placement(ConflictPolicy::KeepBoth, slot, seen) is Move ==> seen == Probe::Missing,
{
}

/// A byte-identical copy already on disk is reported as installed and
/// nothing is written, whatever the policy.
pub proof fn law_identical_bytes_are_already_installed(
    policy: ConflictPolicy,
    slot: u32,
    seen: Probe,
)
    ensures
        seen == Probe::Identical ==> placement(policy, slot, seen) == (Placement::Discard { slot }),
{
}

/// The walk over numbered siblings always moves forward and stops at
/// [`MAX_COPIES`], so a pathological folder ends in an error, never a loop.
pub proof fn law_placement_walk_terminates(policy: ConflictPolicy, slot: u32, seen: Probe)
    requires
        1 <= slot <= MAX_COPIES,
    ensures
        placement(policy, slot, seen) matches Placement::Next { slot: next } ==> slot < next
            <= MAX_COPIES,
{
}

/// Where the walk from `slot` ends, when `probes[n - 1]` is what is found
/// at slot `n`: the first step that is not "probe the next slot".
pub open spec fn walk_from(policy: ConflictPolicy, probes: Seq<Probe>, slot: int) -> Placement
    decreases MAX_COPIES - slot,
{
    if slot < 1 || slot > MAX_COPIES || slot > probes.len() {
        Placement::GiveUp
    } else {
        match placement(policy, slot as u32, probes[slot - 1]) {
            Placement::Next { slot: _ } => walk_from(policy, probes, slot + 1),
            other => other,
        }
    }
}

/// Under "keep both", from `s` on the walk passes every slot that holds
/// other bytes and stops at the first that does not.
proof fn lemma_walk_stops_at(probes: Seq<Probe>, s: int, k: int)
    requires
        probes.len() == MAX_COPIES,
        1 <= s <= k <= MAX_COPIES,
        probes[k - 1] != Probe::Different,
        forall|j: int| s <= j < k ==> #[trigger] probes[j - 1] == Probe::Different,
    ensures
        walk_from(ConflictPolicy::KeepBoth, probes, s) == placement(
            ConflictPolicy::KeepBoth,
            k as u32,
            probes[k - 1],
        ),
    decreases k - s,
{
    if s < k {
        assert(probes[s - 1] == Probe::Different);
        lemma_walk_stops_at(probes, s + 1, k);
    }
}

/// What a walk under "keep both" that ends on a slot tells of the slots:
/// every earlier one from `s` holds other bytes, and the last one is free
/// (a move) or holds the same bytes (a discard).
proof fn lemma_walk_end_shape(probes: Seq<Probe>, s: int)
    requires
        probes.len() == MAX_COPIES,
        1 <= s,
    ensures
        match walk_from(ConflictPolicy::KeepBoth, probes, s) {
            Placement::Move { slot: k, action: _ } => s <= k <= MAX_COPIES && probes[k - 1]
                == Probe::Missing && forall|j: int| s <= j < k ==> #[trigger] probes[j - 1] == Probe::Different,
            Placement::Discard { slot: k } => s <= k <= MAX_COPIES && probes[k - 1]
                == Probe::Identical && forall|j: int| s <= j < k ==> #[trigger] probes[j - 1] == Probe::Different,
            Placement::Next { slot: _ } => false,
            Placement::GiveUp => forall|j: int| s <= j <= MAX_COPIES ==> #[trigger] probes[j - 1] == Probe::Different,
        },
    decreases MAX_COPIES - s,
{
    if s <= MAX_COPIES {
        if probes[s - 1] == Probe::Different && s < MAX_COPIES {
            lemma_walk_end_shape(probes, s + 1);
        }
    }
}

/// Under "keep both", a download lands on the first slot that is free or
/// already holds its bytes — the plain name, else the lowest free numbered
/// sibling — and gives up only when every slot up to [`MAX_COPIES`] holds
/// other bytes.
pub proof fn law_keep_both_takes_the_first_open_slot(probes: Seq<Probe>)
    requires
        probes.len() == MAX_COPIES,
    ensures
        forall|k: int|
            1 <= k <= MAX_COPIES && #[trigger] probes[k - 1] != Probe::Different && (forall|j: int|
                1 <= j < k ==> #[trigger] probes[j - 1] == Probe::Different) ==> walk_from(
                ConflictPolicy::KeepBoth,
                probes,
                1,
            ) == placement(ConflictPolicy::KeepBoth, k as u32, probes[k - 1]),
        (forall|j: int| 1 <= j <= MAX_COPIES ==> #[trigger] probes[j - 1] == Probe::Different) ==> walk_from(
            ConflictPolicy::KeepBoth,
            probes,
            1,
        ) == Placement::GiveUp,
{
    assert forall|k: int|
        1 <= k <= MAX_COPIES && #[trigger] probes[k - 1] != Probe::Different && (forall|j: int|
            1 <= j < k ==> #[trigger] probes[j - 1] == Probe::Different) implies walk_from(
        ConflictPolicy::KeepBoth,
        probes,
        1,
    ) == placement(ConflictPolicy::KeepBoth, k as u32, probes[k - 1]) by {
        lemma_walk_stops_at(probes, 1, k);
    }
    lemma_walk_end_shape(probes, 1);
}

/// Installing the same setup twice under "keep both" writes it once: once
/// the first download has landed on a slot, the same bytes found there end
/// the second walk as "already installed" on that slot; a different
/// download never lands on that slot.
pub proof fn law_keep_both_repeat_installs(probes: Seq<Probe>)
    requires
        probes.len() == MAX_COPIES,
    ensures
        walk_from(ConflictPolicy::KeepBoth, probes, 1) matches Placement::Move { slot: k, action: _ }
            ==> walk_from(ConflictPolicy::KeepBoth, probes.update(k - 1, Probe::Identical), 1)
            == (Placement::Discard { slot: k }),
        walk_from(ConflictPolicy::KeepBoth, probes, 1) matches Placement::Move { slot: k, action: _ }
            ==> match walk_from(
            ConflictPolicy::KeepBoth,
            probes.update(k - 1, Probe::Different),
            1,
        ) {
            Placement::Move { slot: m, action: _ } => m > k,
            Placement::Discard { slot: m } => m > k,
            _ => true,
        },
{
    lemma_walk_end_shape(probes, 1);
    if let Placement::Move { slot: k, action: _ } = walk_from(ConflictPolicy::KeepBoth, probes, 1) {
        let same = probes.update(k - 1, Probe::Identical);
        assert forall|j: int| 1 <= j < k implies #[trigger] same[j - 1] == Probe::Different by {
            assert(same[j - 1] == probes[j - 1]);
        }
        lemma_walk_stops_at(same, 1, k as int);
        let other = probes.update(k - 1, Probe::Different);
        lemma_walk_end_shape(other, 1);
        match walk_from(ConflictPolicy::KeepBoth, other, 1) {
            Placement::Move { slot: m, action: _ } => {
                if m <= k {
                    if m < k {
                        assert(other[m - 1] == probes[m - 1]);
                    }
                }
            },
            Placement::Discard { slot: m } => {
                if m <= k {
                    if m < k {
                        assert(other[m - 1] == probes[m - 1]);
                    }
                }
            },
            _ => {},
        }
    }
}

/// Whatever the policy, a slot found empty takes the file as a fresh
/// install (the plain name) or a kept copy (a numbered name), and a
/// replacement is reported only where a different file was found, on the
/// plain name, under "overwrite".
pub proof fn law_only_a_different_file_is_replaced(policy: ConflictPolicy, slot: u32, seen: Probe)
    ensures
        seen == Probe::Missing ==> placement(policy, slot, seen) == (Placement::Move {
            slot,
            action: if slot == 1 {
                InstallAction::Installed
            } else {
                InstallAction::KeptBoth
            },
        }),
        placement(policy, slot, seen) matches Placement::Move { slot: _, action: a } ==> (a
            == InstallAction::Replaced <==> (seen == Probe::Different && slot == 1 && policy
            == ConflictPolicy::Overwrite)),
{
}

/// The temp file a download is streamed into before it is placed:
/// `.<name>.part`, beside the target.
pub open spec fn temp_file(safe: Seq<char>) -> Seq<char> {
    seq!['.'] + safe + seq!['.', 'p', 'a', 'r', 't']
}

pub fn temp_name(safe: &str) -> (r: String)
    ensures
        r@ == temp_file(safe@),
{
    let mut s = String::new();
    s.push('.');
    s.append(safe);
    s.push('.');
    s.push('p');
    s.push('a');
    s.push('r');
    s.push('t');
    assert(s@ =~= temp_file(safe@));
    s
}

/// The file name a download is written under, or the error for a name that
/// sanitizes to nothing.
pub open spec fn checked_name(filename: Seq<char>) -> Result<Seq<char>, Seq<char>> {
    let safe = sanitized(filename);
    if safe.len() == 0 {
        Err("server supplied an unusable filename: "@ + debug_text(filename))
    } else {
        Ok(safe)
    }
}

/// Sanitize a server-supplied filename, refusing one that leaves nothing.
pub fn checked_filename(filename: &str) -> (r: Result<String, Error>)
    ensures
        match checked_name(filename@) {
            Ok(safe) => r matches Ok(s) && s@ == safe,
            Err(m) => r matches Err(Error::Api(e)) && e@ == m,
        },
{
    let safe = sanitize_filename(filename);
    if safe.unicode_len() == 0 {
        let mut m = String::from_str("server supplied an unusable filename: ");
        m.append(debug_quoted(filename).as_str());
        return Err(Error::Api(m));
    }
    Ok(safe)
}

/// The error for a folder where every numbered sibling is taken.
pub fn too_many_copies(name: &str, dir: &str) -> (r: Error)
    ensures
        r matches Error::Api(m) && m@ == "too many copies of "@ + debug_text(name@) + " in "@
            + dir@ + " — clean up the folder or switch the conflict policy to overwrite"@,
{
    let mut m = String::from_str("too many copies of ");
    m.append(debug_quoted(name).as_str());
    m.append(" in ");
    m.append(dir);
    m.append(" — clean up the folder or switch the conflict policy to overwrite");
    Error::Api(m)
}

} // verus!
