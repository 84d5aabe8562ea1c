//! Paths as plain strings.
//!
//! A path here is its text. Both `/` and `\` separate components (a Windows
//! path is read the same way on every host), empty and `.` components are
//! skipped, and joining inserts `/` unless the base already ends in a
//! separator.
use vstd::prelude::*;

use crate::text::string_of;

verus! {

pub open spec fn is_sep(c: char) -> bool {
    c == '/' || c == '\\'
}

/// The text between separators, empty pieces included (`str::split` on both
/// separators).
pub open spec fn segments(s: Seq<char>) -> Seq<Seq<char>>
    decreases s.len(),
{
    if s.len() == 0 {
        seq![Seq::empty()]
    } else if is_sep(s.last()) {
        segments(s.drop_last()).push(Seq::empty())
    } else {
        let r = segments(s.drop_last());
        r.update(r.len() - 1, r.last().push(s.last()))
    }
}

pub proof fn lemma_segments_nonempty(s: Seq<char>)
    ensures
        segments(s).len() >= 1,
    decreases s.len(),
{
    if s.len() > 0 {
        lemma_segments_nonempty(s.drop_last());
    }
}

/// A segment that names something: neither empty nor `.`.
pub open spec fn is_component(g: Seq<char>) -> bool {
    g.len() > 0 && g != seq!['.']
}

/// The segments that are components, in order.
pub open spec fn keep_components(gs: Seq<Seq<char>>) -> Seq<Seq<char>>
    decreases gs.len(),
{
    if gs.len() == 0 {
        Seq::empty()
    } else if is_component(gs.last()) {
        keep_components(gs.drop_last()).push(gs.last())
    } else {
        keep_components(gs.drop_last())
    }
}

/// The components of a path.
pub open spec fn components(s: Seq<char>) -> Seq<Seq<char>> {
    keep_components(segments(s))
}

/// The last component, unless there is none or it is `..`.
pub open spec fn file_name(s: Seq<char>) -> Option<Seq<char>> {
    let cs = components(s);
    if cs.len() == 0 || cs.last() == seq!['.', '.'] {
        None
    } else {
        Some(cs.last())
    }
}

/// Position of the last `c` in `s`.
pub open spec fn last_index_of(s: Seq<char>, c: char) -> Option<int>
    decreases s.len(),
{
    if s.len() == 0 {
        None
    } else if s.last() == c {
        Some(s.len() - 1)
    } else {
        last_index_of(s.drop_last(), c)
    }
}

pub proof fn lemma_last_index_of(s: Seq<char>, c: char)
    ensures
        match last_index_of(s, c) {
            Some(i) => 0 <= i < s.len() && s[i] == c && forall|j: int|
                i < j < s.len() ==> s[j] != c,
            None => forall|j: int| 0 <= j < s.len() ==> s[j] != c,
        },
    decreases s.len(),
{
    if s.len() > 0 {
        lemma_last_index_of(s.drop_last(), c);
        assert forall|j: int| 0 <= j < s.len() - 1 implies s.drop_last()[j] == s[j] by {}
    }
}

/// Text with no separator in it extends the last segment.
pub proof fn lemma_segments_extend(a: Seq<char>, n: Seq<char>)
    requires
        forall|i: int| 0 <= i < n.len() ==> !is_sep(#[trigger] n[i]),
    ensures
        segments(a + n) == segments(a).update(
            segments(a).len() - 1,
            segments(a).last() + n,
        ),
    decreases n.len(),
{
    lemma_segments_nonempty(a);
    let sa = segments(a);
    if n.len() == 0 {
        assert(a + n =~= a);
        assert(sa.last() + n =~= sa.last());
        assert(sa.update(sa.len() - 1, sa.last() + n) =~= sa);
    } else {
        let n0 = n.drop_last();
        assert forall|i: int| 0 <= i < n0.len() implies !is_sep(#[trigger] n0[i]) by {
            assert(n0[i] == n[i]);
        }
        lemma_segments_extend(a, n0);
        assert((a + n).drop_last() =~= a + n0);
        assert((a + n).last() == n.last());
        assert(!is_sep(n[n.len() - 1]));
        let r = segments(a + n0);
        assert(r.update(r.len() - 1, r.last().push(n.last())) =~= sa.update(
            sa.len() - 1,
            sa.last() + n,
        )) by {
            assert(sa.last() + n0 + seq![n.last()] =~= sa.last() + n);
            assert((sa.last() + n0).push(n.last()) =~= sa.last() + n);
        }
    }
}

/// The file name of `dir` followed by `n`, where `dir` is empty or ends in
/// a separator, is `n`, when `n` is a name with no separator in it.
pub proof fn lemma_file_name_after(dir: Seq<char>, n: Seq<char>)
    requires
        dir.len() == 0 || is_sep(dir.last()),
        forall|i: int| 0 <= i < n.len() ==> !is_sep(#[trigger] n[i]),
        n.len() > 0,
        n != seq!['.'],
        n != seq!['.', '.'],
    ensures
        file_name(dir + n) == Some(n),
{
    lemma_segments_nonempty(dir);
    let sd = segments(dir);
    if dir.len() == 0 {
        assert(sd == seq![Seq::<char>::empty()]);
    } else {
        assert(sd == segments(dir.drop_last()).push(Seq::<char>::empty()));
    }
    assert(sd.last() == Seq::<char>::empty());
    lemma_segments_extend(dir, n);
    let sg = segments(dir + n);
    assert(sd.last() + n =~= n);
    assert(sg.last() == n);
    assert(is_component(n));
    assert(components(dir + n) == keep_components(sg.drop_last()).push(n));
}

/// The extension of `stem.ext` is `ext` whatever dots the stem holds, when
/// neither is empty and the extension holds no dot.
pub proof fn lemma_extension_after_last_dot(stem: Seq<char>, ext: Seq<char>)
    requires
        stem.len() > 0,
        ext.len() > 0,
        forall|i: int| 0 <= i < ext.len() ==> #[trigger] ext[i] != '.',
    ensures
        extension_of(stem + seq!['.'] + ext) == Some(ext),
{
    let name = stem + seq!['.'] + ext;
    let d = stem.len() as int;
    assert(name[d] == '.');
    assert(name.len() >= 3);
    assert(name != seq!['.', '.']) by {
        if name == seq!['.', '.'] {
            assert(name.len() == 2);
        }
    }
    lemma_last_index_of(name, '.');
    match last_index_of(name, '.') {
        Some(i) => {
            if i > d {
                assert(name[i] == ext[i - d - 1]);
            }
            assert(i == d);
            assert(name.skip(d + 1) =~= ext);
        },
        None => {
            assert(name[d] != '.');
        },
    }
}

/// The text after a file name's last `.`, when that dot is not its first
/// character (`Path::extension`).
pub open spec fn extension_of(name: Seq<char>) -> Option<Seq<char>> {
    if name == seq!['.', '.'] {
        None
    } else {
        match last_index_of(name, '.') {
            Some(i) => if i == 0 {
                None
            } else {
                Some(name.skip(i + 1))
            },
            None => None,
        }
    }
}

/// The extension of a path's file name.
pub open spec fn path_extension(s: Seq<char>) -> Option<Seq<char>> {
    match file_name(s) {
        Some(n) => extension_of(n),
        None => None,
    }
}

/// `base` with `comp` appended as a new component.
pub open spec fn join(base: Seq<char>, comp: Seq<char>) -> Seq<char> {
    if base.len() == 0 {
        comp
    } else if is_sep(base.last()) {
        base + comp
    } else {
        base.push('/') + comp
    }
}

pub fn is_separator(c: char) -> (r: bool)
    ensures
        r == is_sep(c),
{
    c == '/' || c == '\\'
}

pub fn append_chars(v: &mut Vec<char>, w: &Vec<char>)
    ensures
        final(v)@ == old(v)@ + w@,
{
    let mut i: usize = 0;
    while i < w.len()
        invariant
            i <= w@.len(),
            v@ == old(v)@ + w@.take(i as int),
        decreases w@.len() - i,
    {
        v.push(w[i]);
        i = i + 1;
        assert(v@ =~= old(v)@ + w@.take(i as int));
    }
    assert(w@.take(w@.len() as int) =~= w@);
}

pub fn join_chars(base: &Vec<char>, comp: &Vec<char>) -> (r: Vec<char>)
    ensures
        r@ == join(base@, comp@),
{
    let mut r: Vec<char> = Vec::new();
    append_chars(&mut r, base);
    if base.len() > 0 && !is_separator(base[base.len() - 1]) {
        r.push('/');
    }
    append_chars(&mut r, comp);
    assert(r@ =~= join(base@, comp@));
    r
}

/// The segments of `s`, split at every separator.
pub fn split_segments(s: &Vec<char>) -> (r: Vec<Vec<char>>)
    ensures
        r@.len() == segments(s@).len(),
        forall|k: int| 0 <= k < r@.len() ==> (#[trigger] r@[k])@ == segments(s@)[k],
{
    let mut done: Vec<Vec<char>> = Vec::new();
    let mut cur: Vec<char> = Vec::new();
    let mut i: usize = 0;
    while i < s.len()
        invariant
            i <= s@.len(),
            done@.len() + 1 == segments(s@.take(i as int)).len(),
            forall|k: int| 0 <= k < done@.len() ==> (#[trigger] done@[k])@ == segments(s@.take(i as int))[k],
            cur@ == segments(s@.take(i as int)).last(),
        decreases s@.len() - i,
    {
        proof {
            lemma_segments_nonempty(s@.take(i as int));
            assert(s@.take(i + 1).drop_last() =~= s@.take(i as int));
        }
        let c = s[i];
        if is_separator(c) {
            let finished = cur;
            done.push(finished);
            cur = Vec::new();
        } else {
            cur.push(c);
        }
        i = i + 1;
    }
    assert(s@.take(s@.len() as int) =~= s@);
    proof {
        lemma_segments_nonempty(s@);
    }
    done.push(cur);
    done
}

/// The components of `s`.
pub fn split_components(s: &Vec<char>) -> (r: Vec<Vec<char>>)
    ensures
        r@.len() == components(s@).len(),
        forall|k: int| 0 <= k < r@.len() ==> (#[trigger] r@[k])@ == components(s@)[k],
{
    let segs = split_segments(s);
    let ghost gs = segments(s@);
    let mut r: Vec<Vec<char>> = Vec::new();
    let mut i: usize = 0;
    while i < segs.len()
        invariant
            gs == segments(s@),
            segs@.len() == gs.len(),
            forall|k: int| 0 <= k < segs@.len() ==> (#[trigger] segs@[k])@ == gs[k],
            i <= segs@.len(),
            r@.len() == keep_components(gs.take(i as int)).len(),
            forall|k: int|
                0 <= k < r@.len() ==> (#[trigger] r@[k])@ == keep_components(gs.take(i as int))[k],
        decreases segs@.len() - i,
    {
        assert(gs.take(i + 1).drop_last() =~= gs.take(i as int));
        let g = &segs[i];
        let keep = g.len() > 0 && !(g.len() == 1 && g[0] == '.');
        assert(keep == is_component(gs[i as int])) by {
            if g@.len() == 1 && g@[0] == '.' {
                assert(g@ =~= seq!['.']);
            }
            if g@ == seq!['.'] {
                assert(g@.len() == 1);
            }
        }
        if keep {
            r.push(segs[i].clone());
        }
        i = i + 1;
    }
    assert(gs.take(gs.len() as int) =~= gs);
    r
}

pub fn file_name_chars(s: &Vec<char>) -> (r: Option<Vec<char>>)
    ensures
        match file_name(s@) {
            Some(n) => r matches Some(v) && v@ == n,
            None => r is None,
        },
{
    let cs = split_components(s);
    if cs.len() == 0 {
        return None;
    }
    let last = &cs[cs.len() - 1];
    if last.len() == 2 && last[0] == '.' && last[1] == '.' {
        assert(last@ =~= seq!['.', '.']);
        return None;
    }
    assert(last@ != seq!['.', '.']) by {
        if last@ == seq!['.', '.'] {
            assert(last@.len() == 2);
        }
    }
    Some(last.clone())
}

pub fn extension_chars(name: &Vec<char>) -> (r: Option<Vec<char>>)
    ensures
        match extension_of(name@) {
            Some(e) => r matches Some(v) && v@ == e,
            None => r is None,
        },
{
    if name.len() == 2 && name[0] == '.' && name[1] == '.' {
        assert(name@ =~= seq!['.', '.']);
        return None;
    }
    assert(name@ != seq!['.', '.']) by {
        if name@ == seq!['.', '.'] {
            assert(name@.len() == 2);
        }
    }
    proof {
        crate::pathstr::lemma_last_index_of(name@, '.');
    }
    let mut i: usize = name.len();
    while i > 0
        invariant
            i <= name@.len(),
            name@ != seq!['.', '.'],
            forall|j: int| i <= j < name@.len() ==> name@[j] != '.',
            match last_index_of(name@, '.') {
                Some(k) => 0 <= k < name@.len() && name@[k] == '.' && forall|j: int|
                    k < j < name@.len() ==> name@[j] != '.',
                None => forall|j: int| 0 <= j < name@.len() ==> name@[j] != '.',
            },
        decreases i,
    {
        if name[i - 1] == '.' {
            if i - 1 == 0 {
                return None;
            }
            let e = crate::text::slice_chars(name, i, name.len());
            assert(e@ =~= name@.skip(i as int));
            return Some(e);
        }
        i = i - 1;
    }
    None
}

/// The string form of a character vector built by [`join_chars`].
pub fn join_str(base: &str, comp: &str) -> (r: String)
    ensures
        r@ == join(base@, comp@),
{
    let b = crate::text::to_chars(base);
    let c = crate::text::to_chars(comp);
    let j = join_chars(&b, &c);
    string_of(&j)
}

} // verus!

verus! {

proof fn lemma_segments_short(s: Seq<char>)
    ensures
        forall|k: int| 0 <= k < segments(s).len() ==> (#[trigger] segments(s)[k]).len() <= s.len(),
    decreases s.len(),
{
    if s.len() > 0 {
        lemma_segments_short(s.drop_last());
        lemma_segments_nonempty(s.drop_last());
    }
}

proof fn lemma_keep_components_from(gs: Seq<Seq<char>>, bound: nat)
    requires
        forall|k: int| 0 <= k < gs.len() ==> (#[trigger] gs[k]).len() <= bound,
    ensures
        forall|k: int|
            0 <= k < keep_components(gs).len() ==> (#[trigger] keep_components(gs)[k]).len()
                <= bound,
    decreases gs.len(),
{
    if gs.len() > 0 {
        let p = gs.drop_last();
        assert forall|k: int| 0 <= k < p.len() implies (#[trigger] p[k]).len() <= bound by {
            assert(p[k] == gs[k]);
        }
        lemma_keep_components_from(p, bound);
        assert(gs.last() == gs[gs.len() - 1]);
        let kp = keep_components(p);
        let kg = keep_components(gs);
        assert forall|k: int| 0 <= k < kg.len() implies (#[trigger] kg[k]).len() <= bound by {
            if k < kp.len() {
                assert(kg[k] == kp[k]);
            } else {
                assert(kg[k] == gs.last());
            }
        }
    }
}

/// No component of a path is longer than the path.
pub proof fn lemma_components_short(s: Seq<char>)
    ensures
        forall|k: int|
            0 <= k < components(s).len() ==> (#[trigger] components(s)[k]).len() <= s.len(),
{
    lemma_segments_short(s);
    lemma_keep_components_from(segments(s), s.len());
}

} // verus!
