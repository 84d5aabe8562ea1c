//! The site's car names for one sim, as upload-form suggestions.
//!
//! The application fetches the site's car list and reads each row's sim tag
//! and name; the selection is here: rows tagged for another sim are
//! dropped (an untagged or unknown tag is kept), blank names are dropped,
//! and the rest are sorted with duplicates removed.
use vstd::prelude::*;

use crate::sim::{spec_from_id, Sim};
use crate::text::{to_chars, trim, trim_chars};

verus! {

/// One car as the site lists it: its sim tag, if any, and its name.
#[derive(Debug, Clone)]
pub struct CarRow {
    pub sim: Option<String>,
    pub name: String,
}

/// Whether `row` is a suggestion for `sim`: its tag names `sim`, or names
/// no known sim, or it has none; and its name is not blank.
pub open spec fn suggests(row: CarRow, sim: Sim) -> bool {
    &&& match row.sim {
        Some(t) => match spec_from_id(t@) {
            Some(s) => s == sim,
            None => true,
        },
        None => true,
    }
    &&& trim(row.name@).len() > 0
}

/// `a` sorts strictly before `b`, character by character (the order of
/// `String`'s `Ord`: UTF-8 bytes and code points order alike).
pub open spec fn lex_lt(a: Seq<char>, b: Seq<char>) -> bool
    decreases a.len(),
{
    if a.len() == 0 {
        b.len() > 0
    } else if b.len() == 0 {
        false
    } else if a[0] < b[0] {
        true
    } else if a[0] == b[0] {
        lex_lt(a.drop_first(), b.drop_first())
    } else {
        false
    }
}

pub proof fn lemma_lex_irreflexive(a: Seq<char>)
    ensures
        !lex_lt(a, a),
    decreases a.len(),
{
    if a.len() > 0 {
        lemma_lex_irreflexive(a.drop_first());
    }
}

pub proof fn lemma_lex_transitive(a: Seq<char>, b: Seq<char>, c: Seq<char>)
    requires
        lex_lt(a, b),
        lex_lt(b, c),
    ensures
        lex_lt(a, c),
    decreases a.len(),
{
    if a.len() > 0 && b.len() > 0 && c.len() > 0 && a[0] == b[0] && b[0] == c[0] {
        lemma_lex_transitive(a.drop_first(), b.drop_first(), c.drop_first());
    }
}

proof fn lemma_lex_total(a: Seq<char>, b: Seq<char>)
    requires
        a != b,
    ensures
        lex_lt(a, b) || lex_lt(b, a),
    decreases a.len(),
{
    if a.len() == 0 && b.len() == 0 {
        assert(a =~= b);
    }
    if a.len() > 0 && b.len() > 0 && a[0] == b[0] {
        if a.drop_first() == b.drop_first() {
            assert(a =~= seq![a[0]] + a.drop_first());
            assert(b =~= seq![b[0]] + b.drop_first());
        }
        lemma_lex_total(a.drop_first(), b.drop_first());
    }
}

proof fn lemma_lex_asymmetric(a: Seq<char>, b: Seq<char>)
    requires
        lex_lt(a, b),
    ensures
        !lex_lt(b, a),
{
    if lex_lt(b, a) {
        lemma_lex_transitive(a, b, a);
        lemma_lex_irreflexive(a);
    }
}

fn lex_less(a: &Vec<char>, b: &Vec<char>) -> (r: bool)
    ensures
        r == lex_lt(a@, b@),
{
    let mut i: usize = 0;
    assert(a@.skip(0) =~= a@);
    assert(b@.skip(0) =~= b@);
    while i < a.len() && i < b.len() && a[i] == b[i]
        invariant
            i <= a@.len(),
            i <= b@.len(),
            lex_lt(a@, b@) == lex_lt(a@.skip(i as int), b@.skip(i as int)),
        decreases a@.len() - i,
    {
        assert(a@.skip(i as int).drop_first() =~= a@.skip(i + 1));
        assert(b@.skip(i as int).drop_first() =~= b@.skip(i + 1));
        i = i + 1;
    }
    if i == a.len() {
        i < b.len()
    } else if i == b.len() {
        false
    } else {
        a[i] < b[i]
    }
}

/// Strictly ascending: sorted with no name twice.
pub open spec fn strictly_sorted(s: Seq<Seq<char>>) -> bool {
    forall|i: int, j: int| 0 <= i < j < s.len() ==> lex_lt(#[trigger] s[i], #[trigger] s[j])
}

pub open spec fn texts(v: Seq<String>) -> Seq<Seq<char>> {
    v.map_values(|s: String| s@)
}

/// Insert `x` into the strictly ascending `out`, unless it is already
/// there.
fn insert_sorted(out: &mut Vec<String>, x: String)
    requires
        strictly_sorted(texts(old(out)@)),
    ensures
        strictly_sorted(texts(final(out)@)),
        forall|s: Seq<char>|
            texts(final(out)@).contains(s) <==> (texts(old(out)@).contains(s) || s == x@),
{
    let xv = to_chars(x.as_str());
    let mut k: usize = 0;
    let ghost t = texts(out@);
    while k < out.len() && lex_less(&to_chars(out[k].as_str()), &xv)
        invariant
            t == texts(out@),
            k <= out@.len(),
            xv@ == x@,
            forall|j: int| 0 <= j < k ==> lex_lt(#[trigger] t[j], x@),
        decreases out@.len() - k,
    {
        k = k + 1;
    }
    if k < out.len() && crate::text::chars_eq(&to_chars(out[k].as_str()), &xv) {
        assert(t[k as int] == x@);
        return;
    }
    proof {
        if k < t.len() {
            assert(t[k as int] != x@);
            assert(!lex_lt(t[k as int], x@));
            lemma_lex_total(t[k as int], x@);
        }
    }
    let ghost before = out@;
    out.insert(k, x);
    proof {
        let after = texts(out@);
        assert(after =~= t.insert(k as int, x@));
        assert forall|i: int, j: int| 0 <= i < j < after.len() implies lex_lt(
            #[trigger] after[i],
            #[trigger] after[j],
        ) by {
            if j < k {
                assert(after[i] == t[i] && after[j] == t[j]);
            } else if j == k {
                assert(after[i] == t[i]);
            } else if i < k {
                assert(after[i] == t[i] && after[j] == t[j - 1]);
                if j - 1 > k {
                    assert(lex_lt(t[k as int], t[j - 1]));
                    lemma_lex_transitive(x@, t[k as int], t[j - 1]);
                }
                lemma_lex_transitive(t[i], x@, t[j - 1]);
            } else if i == k {
                assert(after[j] == t[j - 1]);
                if j - 1 > k {
                    assert(lex_lt(t[k as int], t[j - 1]));
                    lemma_lex_transitive(x@, t[k as int], t[j - 1]);
                }
            } else {
                assert(after[i] == t[i - 1] && after[j] == t[j - 1]);
            }
        }
        assert forall|s: Seq<char>| after.contains(s) <==> (t.contains(s) || s == x@) by {
            if after.contains(s) {
                let i = choose|i: int| 0 <= i < after.len() && after[i] == s;
                if i < k {
                    assert(t[i] == s);
                } else if i > k {
                    assert(t[i - 1] == s);
                }
            }
            if t.contains(s) {
                let i = choose|i: int| 0 <= i < t.len() && t[i] == s;
                if i < k {
                    assert(after[i] == s);
                } else {
                    assert(after[i + 1] == s);
                }
            }
            if s == x@ {
                assert(after[k as int] == s);
            }
        }
    }
}

fn suggests_exec(row: &CarRow, sim: Sim) -> (r: bool)
    ensures
        r == suggests(*row, sim),
{
    let tag_ok = match &row.sim {
        Some(t) => match Sim::from_id(t.as_str()) {
            Some(s) => s == sim,
            None => true,
        },
        None => true,
    };
    tag_ok && trim_chars(&to_chars(row.name.as_str())).len() > 0
}

/// `s` is the name of a row of `rows` that suggests for `sim`.
pub open spec fn suggested(rows: Seq<CarRow>, sim: Sim, s: Seq<char>) -> bool {
    exists|j: int| 0 <= j < rows.len() && suggests(#[trigger] rows[j], sim) && rows[j].name@ == s
}

proof fn lemma_suggested_step(rows: Seq<CarRow>, sim: Sim, i: int, s: Seq<char>)
    requires
        0 <= i < rows.len(),
    ensures
        suggested(rows.take(i + 1), sim, s) <==> (suggested(rows.take(i), sim, s) || (suggests(
            rows[i],
            sim,
        ) && rows[i].name@ == s)),
{
    let a = rows.take(i + 1);
    let b = rows.take(i);
    if suggested(a, sim, s) {
        let j = choose|j: int| 0 <= j < a.len() && suggests(#[trigger] a[j], sim) && a[j].name@ == s;
        if j < i {
            assert(b[j] == a[j]);
        } else {
            assert(a[j] == rows[i]);
        }
    }
    if suggested(b, sim, s) {
        let j = choose|j: int| 0 <= j < b.len() && suggests(#[trigger] b[j], sim) && b[j].name@ == s;
        assert(a[j] == b[j]);
    }
    if suggests(rows[i], sim) && rows[i].name@ == s {
        assert(a[i] == rows[i]);
    }
}

/// The car names the site knows for `sim`, for the upload form's
/// suggestions: sorted, each once.
pub fn names_for_rows(rows: &Vec<CarRow>, sim: Sim) -> (r: Vec<String>)
    ensures
        strictly_sorted(texts(r@)),
        forall|s: Seq<char>| texts(r@).contains(s) <==> suggested(rows@, sim, s),
{
    let mut out: Vec<String> = Vec::new();
    let mut i: usize = 0;
    while i < rows.len()
        invariant
            i <= rows@.len(),
            strictly_sorted(texts(out@)),
            forall|s: Seq<char>| texts(out@).contains(s) <==> suggested(rows@.take(i as int), sim, s),
        decreases rows@.len() - i,
    {
        if suggests_exec(&rows[i], sim) {
            let name = rows[i].name.clone();
            assert(name@ == rows@[i as int].name@);
            insert_sorted(&mut out, name);
        }
        assert forall|s: Seq<char>| texts(out@).contains(s) <==> suggested(
            rows@.take(i + 1),
            sim,
            s,
        ) by {
            lemma_suggested_step(rows@, sim, i as int, s);
        }
        i = i + 1;
    }
    assert(rows@.take(rows@.len() as int) =~= rows@);
    out
}

} // verus!
