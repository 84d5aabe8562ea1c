//! Match an on-disk folder id against the site's live car list.
//!
//! Never guesses when it isn't sure: every tier requires a single best
//! candidate, and a tie yields `None`. The tiers, in order:
//!
//! 1. **Exact** — normalized equality, the comparison the server makes.
//! 2. **Containment** — either side contains the other; closest length wins.
//! 3. **Subsequence** — the id's letters appear in order in the name, which
//!    must start with the id's first three characters; fewest added
//!    characters wins. Only for ids of six or more normalized characters.
//! 4. **Edit distance** — within a budget of a fifth of the id's length
//!    (at least one); smallest distance wins.
//!
//! Purely computational: the caller supplies the name list.
use vstd::prelude::*;

use crate::text::{
    chars_eq, contains_chars, is_substring, lemma_normalized_len, normalize_chars, normalized,
    starts_with, starts_with_chars, string_of, to_chars,
};

verus! {

/// Below this many normalized characters a folder id carries too little
/// signal for the subsequence and edit-distance tiers.
pub const MIN_FUZZY_LEN: usize = 6;

/// Leading characters a name must share with the folder id before the
/// subsequence tier will consider it.
pub const ANCHOR_LEN: usize = 3;

/// Shortest overlap the containment tier accepts.
pub const MIN_CONTAIN_LEN: usize = 3;

/// The character views of a list of strings.
pub open spec fn views(known: Seq<String>) -> Seq<Seq<char>> {
    known.map_values(|s: String| s@)
}

/// The first position of `x` in `s`.
pub open spec fn first_index<A>(s: Seq<A>, x: A) -> Option<int>
    decreases s.len(),
{
    if s.len() == 0 {
        None
    } else {
        match first_index(s.drop_last(), x) {
            Some(i) => Some(i),
            None => if s.last() == x {
                Some(s.len() - 1)
            } else {
                None
            },
        }
    }
}

pub proof fn lemma_first_index<A>(s: Seq<A>, x: A)
    ensures
        match first_index(s, x) {
            Some(i) => 0 <= i < s.len() && s[i] == x && forall|j: int| 0 <= j < i ==> s[j] != x,
            None => forall|j: int| 0 <= j < s.len() ==> s[j] != x,
        },
    decreases s.len(),
{
    if s.len() > 0 {
        lemma_first_index(s.drop_last(), x);
        assert forall|j: int| 0 <= j < s.len() - 1 implies s.drop_last()[j] == s[j] by {}
    }
}

/// Which entry of `known` the site considers the same car as `candidate`:
/// the first one that normalizes identically (nothing for an empty key).
pub open spec fn exact_index(candidate: Seq<char>, known: Seq<Seq<char>>) -> Option<int> {
    let target = normalized(candidate);
    if target.len() == 0 {
        None
    } else {
        first_index(known.map_values(|k: Seq<char>| normalized(k)), target)
    }
}

/// Case-fold and strip to `[a-z0-9]`, mirroring the server's comparison.
pub fn normalize(value: &str) -> (r: String)
    ensures
        r@ == normalized(value@),
{
    let v = to_chars(value);
    let n = normalize_chars(&v);
    string_of(&n)
}

fn normalize_str(value: &str) -> (r: Vec<char>)
    ensures
        r@ == normalized(value@),
{
    let v = to_chars(value);
    normalize_chars(&v)
}

/// The entry of `known` that equals `candidate` under [`normalize`].
pub fn exact_match<'a>(candidate: &str, known: &'a [String]) -> (r: Option<&'a str>)
    ensures
        match exact_index(candidate@, views(known@)) {
            Some(i) => r matches Some(s) && s@ == known@[i]@,
            None => r is None,
        },
{
    let target = normalize_str(candidate);
    let ghost keys = views(known@).map_values(|k: Seq<char>| normalized(k));
    proof {
        lemma_first_index(keys, target@);
    }
    if target.len() == 0 {
        return None;
    }
    let mut i: usize = 0;
    while i < known.len()
        invariant
            i <= known@.len(),
            target@ == normalized(candidate@),
            target@.len() > 0,
            keys == views(known@).map_values(|k: Seq<char>| normalized(k)),
            forall|j: int| 0 <= j < i ==> keys[j] != target@,
            match first_index(keys, target@) {
                Some(f) => 0 <= f < keys.len() && keys[f] == target@ && forall|j: int|
                    0 <= j < f ==> keys[j] != target@,
                None => forall|j: int| 0 <= j < keys.len() ==> keys[j] != target@,
            },
        decreases known@.len() - i,
    {
        let key = normalize_str(known[i].as_str());
        assert(keys[i as int] == key@);
        if chars_eq(&key, &target) {
            return Some(known[i].as_str());
        }
        i = i + 1;
    }
    None
}

/// Whether every character of `needle` occurs in `hay` in order — greedily,
/// taking the earliest occurrence of each character.
pub open spec fn is_subseq(needle: Seq<char>, hay: Seq<char>) -> bool
    decreases hay.len(),
{
    if needle.len() == 0 {
        true
    } else if hay.len() == 0 {
        false
    } else if needle[0] == hay[0] {
        is_subseq(needle.drop_first(), hay.drop_first())
    } else {
        is_subseq(needle, hay.drop_first())
    }
}

fn subseq_chars(needle: &Vec<char>, hay: &Vec<char>) -> (r: bool)
    ensures
        r == is_subseq(needle@, hay@),
{
    let mut i: usize = 0;
    let mut j: usize = 0;
    assert(needle@.skip(0) =~= needle@);
    assert(hay@.skip(0) =~= hay@);
    while i < needle.len() && j < hay.len()
        invariant
            i <= needle@.len(),
            j <= hay@.len(),
            is_subseq(needle@, hay@) == is_subseq(needle@.skip(i as int), hay@.skip(j as int)),
        decreases hay@.len() - j,
    {
        assert(needle@.skip(i as int).drop_first() =~= needle@.skip(i + 1));
        assert(hay@.skip(j as int).drop_first() =~= hay@.skip(j + 1));
        if needle[i] == hay[j] {
            i = i + 1;
        }
        j = j + 1;
    }
    i == needle.len()
}

/// Whether every character of `needle` appears in `haystack` in order.
pub fn is_subsequence(needle: &str, haystack: &str) -> (r: bool)
    ensures
        r == is_subseq(needle@, haystack@),
{
    let n = to_chars(needle);
    let h = to_chars(haystack);
    subseq_chars(&n, &h)
}

pub open spec fn min_nat(a: nat, b: nat) -> nat {
    if a <= b {
        a
    } else {
        b
    }
}

/// Levenshtein distance: the fewest single-character insertions, deletions
/// and substitutions that turn `a` into `b`.
pub open spec fn lev(a: Seq<char>, b: Seq<char>) -> nat
    decreases a.len() + b.len(),
{
    if a.len() == 0 {
        b.len()
    } else if b.len() == 0 {
        a.len()
    } else {
        let substitute = lev(a.drop_last(), b.drop_last()) + (if a.last() == b.last() {
            0nat
        } else {
            1nat
        });
        let delete = lev(a.drop_last(), b) + 1;
        let insert = lev(a, b.drop_last()) + 1;
        min_nat(min_nat(substitute, delete), insert)
    }
}

/// Edit distance never exceeds the longer of the two lengths.
pub proof fn law_edit_distance_bounded(a: Seq<char>, b: Seq<char>)
    ensures
        lev(a, b) <= if a.len() >= b.len() {
            a.len()
        } else {
            b.len()
        },
    decreases a.len() + b.len(),
{
    if a.len() > 0 && b.len() > 0 {
        law_edit_distance_bounded(a.drop_last(), b.drop_last());
    }
}

fn edit_distance_chars(a: &Vec<char>, b: &Vec<char>) -> (r: usize)
    requires
        a@.len() < usize::MAX,
        b@.len() < usize::MAX,
    ensures
        r == lev(a@, b@),
{
    let m = b.len();
    let mut previous: Vec<usize> = Vec::new();
    let mut current: Vec<usize> = Vec::new();
    let mut k: usize = 0;
    while k <= m
        invariant
            m == b@.len(),
            m < usize::MAX,
            k <= m + 1,
            previous@.len() == k,
            current@.len() == k,
            forall|x: int| 0 <= x < k ==> previous@[x] == lev(Seq::empty(), b@.take(x)),
        decreases m + 1 - k,
    {
        previous.push(k);
        current.push(0);
        k = k + 1;
    }
    let mut i: usize = 0;
    while i < a.len()
        invariant
            m == b@.len(),
            a@.len() < usize::MAX,
            m < usize::MAX,
            i <= a@.len(),
            previous@.len() == m + 1,
            current@.len() == m + 1,
            forall|x: int| 0 <= x <= m ==> previous@[x] == lev(a@.take(i as int), b@.take(x)),
        decreases a@.len() - i,
    {
        current.set(0, i + 1);
        assert(b@.take(0) =~= Seq::<char>::empty());
        let mut j: usize = 0;
        while j < m
            invariant
                m == b@.len(),
                a@.len() < usize::MAX,
                m < usize::MAX,
                i < a@.len(),
                j <= m,
                previous@.len() == m + 1,
                current@.len() == m + 1,
                forall|x: int| 0 <= x <= m ==> previous@[x] == lev(a@.take(i as int), b@.take(x)),
                forall|x: int| 0 <= x <= j ==> current@[x] == lev(a@.take(i + 1), b@.take(x)),
            decreases m - j,
        {
            proof {
                law_edit_distance_bounded(a@.take(i as int), b@.take(j as int));
                law_edit_distance_bounded(a@.take(i as int), b@.take(j + 1));
                law_edit_distance_bounded(a@.take(i + 1), b@.take(j as int));
                assert(a@.take(i + 1).drop_last() =~= a@.take(i as int));
                assert(b@.take(j + 1).drop_last() =~= b@.take(j as int));
            }
            let substitute = previous[j] + if a[i] == b[j] {
                0
            } else {
                1
            };
            let delete = previous[j + 1] + 1;
            let insert = current[j] + 1;
            let first = if substitute <= delete {
                substitute
            } else {
                delete
            };
            let best = if first <= insert {
                first
            } else {
                insert
            };
            current.set(j + 1, best);
            j = j + 1;
        }
        std::mem::swap(&mut previous, &mut current);
        i = i + 1;
    }
    assert(a@.take(a@.len() as int) =~= a@);
    assert(b@.take(m as int) =~= b@);
    previous[m]
}

/// Levenshtein distance between `a` and `b`, character by character.
pub fn edit_distance(a: &str, b: &str) -> (r: usize)
    requires
        a@.len() < usize::MAX,
        b@.len() < usize::MAX,
    ensures
        r == lev(a@, b@),
{
    let x = to_chars(a);
    let y = to_chars(b);
    edit_distance_chars(&x, &y)
}

/// `k` holds the one strictly smallest score: every other scored entry is
/// larger.
pub open spec fn is_unique_min(scores: Seq<Option<usize>>, k: int) -> bool {
    &&& 0 <= k < scores.len()
    &&& scores[k] is Some
    &&& forall|j: int|
        0 <= j < scores.len() && j != k && #[trigger] scores[j] is Some ==> scores[k]->0
            < scores[j]->0
}

/// The entry with the single lowest score, or `None` when nothing scored or
/// the lowest score is shared.
pub open spec fn unique_min(scores: Seq<Option<usize>>) -> Option<int> {
    if exists|k: int| is_unique_min(scores, k) {
        Some(choose|k: int| is_unique_min(scores, k))
    } else {
        None
    }
}

pub proof fn lemma_unique_min_is_unique(scores: Seq<Option<usize>>, k: int)
    requires
        is_unique_min(scores, k),
    ensures
        unique_min(scores) == Some(k),
{
    let c = choose|x: int| is_unique_min(scores, x);
    if c != k {
        assert(scores[k] is Some);
        assert(scores[c] is Some);
    }
}

/// The single lowest-scoring entry of `scores`, or `None` when nothing
/// scores or two entries tie for best.
pub fn pick(scores: &Vec<Option<usize>>) -> (r: Option<usize>)
    ensures
        match r {
            Some(k) => unique_min(scores@) == Some(k as int),
            None => unique_min(scores@) is None,
        },
{
    let mut best: Option<(usize, usize)> = None;
    let mut tied = false;
    let mut i: usize = 0;
    while i < scores.len()
        invariant
            i <= scores@.len(),
            match best {
                None => !tied && forall|j: int| 0 <= j < i ==> #[trigger] scores@[j] is None,
                Some((bp, bi)) => {
                    &&& bi < i
                    &&& scores@[bi as int] == Some(bp)
                    &&& forall|j: int|
                        0 <= j < i && #[trigger] scores@[j] is Some ==> bp <= scores@[j]->0
                    &&& forall|j: int|
                        0 <= j < bi && #[trigger] scores@[j] is Some ==> bp < scores@[j]->0
                    &&& tied == exists|j: int| bi < j < i && #[trigger] scores@[j] == Some(bp)
                },
            },
        decreases scores@.len() - i,
    {
        match scores[i] {
            None => {},
            Some(points) => {
                match best {
                    Some((bp, _)) => {
                        if points > bp {
                        } else if points == bp {
                            tied = true;
                        } else {
                            best = Some((points, i));
                            tied = false;
                        }
                    },
                    None => {
                        best = Some((points, i));
                        tied = false;
                    },
                }
            },
        }
        i = i + 1;
    }
    match best {
        None => {
            assert(forall|k: int| !is_unique_min(scores@, k));
            None
        },
        Some((bp, bi)) => {
            if tied {
                let ghost w = choose|j: int| bi < j < i && #[trigger] scores@[j] == Some(bp);
                assert forall|k: int| !is_unique_min(scores@, k) by {
                    if is_unique_min(scores@, k) {
                        if k == w {
                            assert(scores@[bi as int] is Some);
                        } else {
                            assert(scores@[w] is Some);
                        }
                    }
                }
                None
            } else {
                assert(is_unique_min(scores@, bi as int));
                proof {
                    lemma_unique_min_is_unique(scores@, bi as int);
                }
                Some(bi)
            }
        },
    }
}

/// The names of `known` that keep at least one character under
/// normalization, normalized, each with its position in `known`.
pub open spec fn norm_pairs(known: Seq<Seq<char>>) -> Seq<(Seq<char>, int)>
    decreases known.len(),
{
    if known.len() == 0 {
        Seq::empty()
    } else {
        let rest = norm_pairs(known.drop_last());
        let n = normalized(known.last());
        if n.len() > 0 {
            rest.push((n, known.len() - 1))
        } else {
            rest
        }
    }
}

pub proof fn lemma_norm_pairs(known: Seq<Seq<char>>)
    ensures
        forall|j: int|
            0 <= j < norm_pairs(known).len() ==> {
                &&& 0 <= #[trigger] norm_pairs(known)[j].1 < known.len()
                &&& norm_pairs(known)[j].0 == normalized(known[norm_pairs(known)[j].1])
                &&& norm_pairs(known)[j].0.len() > 0
            },
    decreases known.len(),
{
    if known.len() > 0 {
        let rest = known.drop_last();
        lemma_norm_pairs(rest);
        assert forall|j: int| 0 <= j < norm_pairs(rest).len() implies #[trigger] known[norm_pairs(
            rest,
        )[j].1] == rest[norm_pairs(rest)[j].1] by {}
    }
}

pub open spec fn abs_diff(a: nat, b: nat) -> nat {
    if a >= b {
        (a - b) as nat
    } else {
        (b - a) as nat
    }
}

/// Tier 2: either side contains the other and they overlap by at least
/// [`MIN_CONTAIN_LEN`]; scored by the difference in length.
pub open spec fn contain_score(q: Seq<char>, n: Seq<char>) -> Option<usize> {
    let overlap = if n.len() <= q.len() {
        n.len()
    } else {
        q.len()
    };
    if overlap >= MIN_CONTAIN_LEN && (is_substring(q, n) || is_substring(n, q)) {
        Some(abs_diff(n.len(), q.len()) as usize)
    } else {
        None
    }
}

/// Tier 3: the name is longer, starts with the id's first [`ANCHOR_LEN`]
/// characters, and holds the id as a subsequence; scored by the characters
/// the name adds.
pub open spec fn subseq_score(q: Seq<char>, n: Seq<char>) -> Option<usize> {
    if n.len() > q.len() && starts_with(n, q.take(ANCHOR_LEN as int)) && is_subseq(q, n) {
        Some((n.len() - q.len()) as usize)
    } else {
        None
    }
}

/// The edit-distance allowance for an id of `len` characters.
pub open spec fn budget(len: nat) -> nat {
    if len / 5 >= 1 {
        len / 5
    } else {
        1
    }
}

/// Tier 4: within [`budget`] edits; scored by the distance.
pub open spec fn close_score(q: Seq<char>, n: Seq<char>) -> Option<usize> {
    if lev(q, n) <= budget(q.len()) {
        Some(lev(q, n) as usize)
    } else {
        None
    }
}

pub open spec fn score(tier: int, q: Seq<char>, n: Seq<char>) -> Option<usize> {
    if tier == 0 {
        contain_score(q, n)
    } else if tier == 1 {
        subseq_score(q, n)
    } else {
        close_score(q, n)
    }
}

pub open spec fn tier_scores(pairs: Seq<(Seq<char>, int)>, q: Seq<char>, tier: int) -> Seq<
    Option<usize>,
> {
    Seq::new(pairs.len(), |j: int| score(tier, q, pairs[j].0))
}

/// The position in `known` of the name a tier settles on, if it settles.
pub open spec fn tier_pick(pairs: Seq<(Seq<char>, int)>, q: Seq<char>, tier: int) -> Option<int> {
    match unique_min(tier_scores(pairs, q, tier)) {
        Some(j) => Some(pairs[j].1),
        None => None,
    }
}

/// Which entry of `known` [`best_match`] names for `candidate`: the exact
/// tier, then containment; then, for ids of at least [`MIN_FUZZY_LEN`]
/// characters, subsequence and edit distance.
pub open spec fn best_match_index(candidate: Seq<char>, known: Seq<Seq<char>>) -> Option<int> {
    let q = normalized(candidate);
    let pairs = norm_pairs(known);
    if q.len() == 0 {
        None
    } else if exact_index(candidate, known) is Some {
        exact_index(candidate, known)
    } else if tier_pick(pairs, q, 0) is Some {
        tier_pick(pairs, q, 0)
    } else if q.len() < MIN_FUZZY_LEN {
        None
    } else if tier_pick(pairs, q, 1) is Some {
        tier_pick(pairs, q, 1)
    } else {
        tier_pick(pairs, q, 2)
    }
}

/// Every string in `known` is shorter than `usize::MAX` characters — true of
/// any string that fits in memory.
pub open spec fn lengths_fit(known: Seq<String>) -> bool {
    forall|i: int| 0 <= i < known.len() ==> (#[trigger] known[i])@.len() < usize::MAX
}

fn norm_names(known: &[String]) -> (r: (Vec<Vec<char>>, Vec<usize>))
    requires
        lengths_fit(known@),
    ensures
        r.0@.len() == norm_pairs(views(known@)).len(),
        r.1@.len() == norm_pairs(views(known@)).len(),
        forall|j: int|
            0 <= j < r.0@.len() ==> {
                &&& (#[trigger] r.0@[j])@ == norm_pairs(views(known@))[j].0
                &&& r.1@[j] == norm_pairs(views(known@))[j].1
                &&& r.0@[j]@.len() < usize::MAX
            },
{
    let ghost all = views(known@);
    let mut norms: Vec<Vec<char>> = Vec::new();
    let mut idxs: Vec<usize> = Vec::new();
    let mut i: usize = 0;
    while i < known.len()
        invariant
            lengths_fit(known@),
            all == views(known@),
            i <= known@.len(),
            norms@.len() == norm_pairs(all.take(i as int)).len(),
            idxs@.len() == norm_pairs(all.take(i as int)).len(),
            forall|j: int|
                0 <= j < norms@.len() ==> {
                    &&& (#[trigger] norms@[j])@ == norm_pairs(all.take(i as int))[j].0
                    &&& idxs@[j] == norm_pairs(all.take(i as int))[j].1
                    &&& norms@[j]@.len() < usize::MAX
                },
        decreases known@.len() - i,
    {
        let n = normalize_str(known[i].as_str());
        proof {
            lemma_normalized_len(known@[i as int]@);
            assert(all.take(i + 1).drop_last() =~= all.take(i as int));
            assert(all.take(i + 1).last() == known@[i as int]@);
        }
        if n.len() > 0 {
            norms.push(n);
            idxs.push(i);
        }
        i = i + 1;
    }
    assert(all.take(known@.len() as int) =~= all);
    (norms, idxs)
}

fn abs_diff_usize(a: usize, b: usize) -> (r: usize)
    ensures
        r == abs_diff(a as nat, b as nat),
{
    if a >= b {
        a - b
    } else {
        b - a
    }
}

fn score_one(tier: usize, q: &Vec<char>, n: &Vec<char>) -> (r: Option<usize>)
    requires
        tier <= 2,
        q@.len() < usize::MAX,
        n@.len() < usize::MAX,
        tier == 1 ==> q@.len() >= MIN_FUZZY_LEN,
    ensures
        r == score(tier as int, q@, n@),
{
    if tier == 0 {
        let overlap = if n.len() <= q.len() {
            n.len()
        } else {
            q.len()
        };
        if overlap >= MIN_CONTAIN_LEN && (contains_chars(n, q) || contains_chars(q, n)) {
            Some(abs_diff_usize(n.len(), q.len()))
        } else {
            None
        }
    } else if tier == 1 {
        let mut anchor: Vec<char> = Vec::new();
        let mut k: usize = 0;
        while k < ANCHOR_LEN
            invariant
                k <= ANCHOR_LEN,
                q@.len() >= MIN_FUZZY_LEN,
                anchor@ == q@.take(k as int),
            decreases ANCHOR_LEN - k,
        {
            anchor.push(q[k]);
            k = k + 1;
            assert(anchor@ =~= q@.take(k as int));
        }
        if n.len() > q.len() && starts_with_chars(n, &anchor) && subseq_chars(q, n) {
            Some(n.len() - q.len())
        } else {
            None
        }
    } else {
        let distance = edit_distance_chars(q, n);
        let allowance = if q.len() / 5 >= 1 {
            q.len() / 5
        } else {
            1
        };
        if distance <= allowance {
            Some(distance)
        } else {
            None
        }
    }
}

fn tier_scores_exec(tier: usize, q: &Vec<char>, norms: &Vec<Vec<char>>) -> (r: Vec<Option<usize>>)
    requires
        tier <= 2,
        q@.len() < usize::MAX,
        forall|j: int| 0 <= j < norms@.len() ==> (#[trigger] norms@[j])@.len() < usize::MAX,
        tier == 1 ==> q@.len() >= MIN_FUZZY_LEN,
    ensures
        r@.len() == norms@.len(),
        forall|j: int|
            0 <= j < norms@.len() ==> #[trigger] r@[j] == score(tier as int, q@, norms@[j]@),
{
    let mut r: Vec<Option<usize>> = Vec::new();
    let mut j: usize = 0;
    while j < norms.len()
        invariant
            tier <= 2,
            q@.len() < usize::MAX,
            forall|x: int| 0 <= x < norms@.len() ==> (#[trigger] norms@[x])@.len() < usize::MAX,
            tier == 1 ==> q@.len() >= MIN_FUZZY_LEN,
            j <= norms@.len(),
            r@.len() == j,
            forall|x: int| 0 <= x < j ==> #[trigger] r@[x] == score(tier as int, q@, norms@[x]@),
        decreases norms@.len() - j,
    {
        let s = score_one(tier, q, &norms[j]);
        r.push(s);
        j = j + 1;
    }
    r
}

/// The site's name for `candidate` (a folder id, or anything else the user
/// typed), or `None` when no single name stands out.
pub fn best_match<'a>(candidate: &str, known: &'a [String]) -> (r: Option<&'a str>)
    requires
        candidate@.len() < usize::MAX,
        lengths_fit(known@),
    ensures
        match best_match_index(candidate@, views(known@)) {
            Some(i) => r matches Some(s) && s@ == known@[i]@,
            None => r is None,
        },
{
    let ghost all = views(known@);
    let ghost pairs = norm_pairs(all);
    let query = normalize_str(candidate);
    proof {
        lemma_normalized_len(candidate@);
        lemma_norm_pairs(all);
    }
    if query.len() == 0 {
        return None;
    }
    let (norms, idxs) = norm_names(known);
    if let Some(name) = exact_match(candidate, known) {
        return Some(name);
    }
    let mut tier: usize = 0;
    while tier <= 2
        invariant
            query@ == normalized(candidate@),
            query@.len() > 0,
            query@.len() < usize::MAX,
            all == views(known@),
            pairs == norm_pairs(all),
            exact_index(candidate@, all) is None,
            tier <= 3,
            norms@.len() == pairs.len(),
            idxs@.len() == pairs.len(),
            forall|j: int|
                0 <= j < norms@.len() ==> {
                    &&& (#[trigger] norms@[j])@ == pairs[j].0
                    &&& idxs@[j] == pairs[j].1
                    &&& norms@[j]@.len() < usize::MAX
                },
            forall|j: int|
                0 <= j < pairs.len() ==> 0 <= #[trigger] pairs[j].1 < known@.len(),
            tier >= 1 ==> tier_pick(pairs, query@, 0) is None,
            tier >= 2 ==> tier_pick(pairs, query@, 1) is None && query@.len() >= MIN_FUZZY_LEN,
            tier >= 3 ==> tier_pick(pairs, query@, 2) is None,
        decreases 3 - tier,
    {
        if tier == 1 && query.len() < MIN_FUZZY_LEN {
            return None;
        }
        let scores = tier_scores_exec(tier, &query, &norms);
        assert(scores@ =~= tier_scores(pairs, query@, tier as int));
        match pick(&scores) {
            Some(j) => {
                let at = idxs[j];
                return Some(known[at].as_str());
            },
            None => {},
        }
        tier = tier + 1;
    }
    None
}


/// Edit distance does not depend on direction: turning `a` into `b` takes as
/// many edits as turning `b` into `a`.
pub proof fn law_edit_distance_symmetric(a: Seq<char>, b: Seq<char>)
    ensures
        lev(a, b) == lev(b, a),
    decreases a.len() + b.len(),
{
    if a.len() > 0 && b.len() > 0 {
        law_edit_distance_symmetric(a.drop_last(), b.drop_last());
        law_edit_distance_symmetric(a.drop_last(), b);
        law_edit_distance_symmetric(a, b.drop_last());
    }
}

/// A string is at distance zero from itself.
pub proof fn law_edit_distance_zero_on_itself(a: Seq<char>)
    ensures
        lev(a, a) == 0,
    decreases a.len(),
{
    if a.len() > 0 {
        law_edit_distance_zero_on_itself(a.drop_last());
    }
}

/// Whatever the matcher settles on is one of the names it was given, and
/// one that keeps at least one character under normalization: it never
/// makes a name up.
pub proof fn law_best_match_names_a_known_car(candidate: Seq<char>, known: Seq<Seq<char>>)
    ensures
        match best_match_index(candidate, known) {
            Some(i) => 0 <= i < known.len() && normalized(known[i]).len() > 0,
            None => true,
        },
{
    let q = normalized(candidate);
    lemma_first_index(known.map_values(|k: Seq<char>| normalized(k)), q);
    lemma_tier_pick_in_range(known, q, 0);
    lemma_tier_pick_in_range(known, q, 1);
    lemma_tier_pick_in_range(known, q, 2);
}

proof fn lemma_tier_pick_in_range(known: Seq<Seq<char>>, q: Seq<char>, tier: int)
    ensures
        match tier_pick(norm_pairs(known), q, tier) {
            Some(i) => 0 <= i < known.len() && normalized(known[i]).len() > 0,
            None => true,
        },
{
    let pairs = norm_pairs(known);
    lemma_norm_pairs(known);
    let scores = tier_scores(pairs, q, tier);
    if exists|k: int| is_unique_min(scores, k) {
        let k = choose|k: int| is_unique_min(scores, k);
        assert(0 <= pairs[k].1 < known.len());
        assert(pairs[k].0 == normalized(known[pairs[k].1]));
    }
}

/// A candidate with nothing left under normalization (empty, or only
/// punctuation and spaces) matches nothing.
pub proof fn law_best_match_blank_candidate_declines(candidate: Seq<char>, known: Seq<Seq<char>>)
    requires
        normalized(candidate).len() == 0,
    ensures
        best_match_index(candidate, known) is None,
{
}

/// An empty list of names matches nothing, so an offline client behaves as
/// if no matcher were there.
pub proof fn law_best_match_empty_list_declines(candidate: Seq<char>)
    ensures
        best_match_index(candidate, Seq::empty()) is None,
{
    let known = Seq::<Seq<char>>::empty();
    let q = normalized(candidate);
    assert(known.map_values(|k: Seq<char>| normalized(k)) =~= Seq::<Seq<char>>::empty());
    assert(norm_pairs(known) =~= Seq::<(Seq<char>, int)>::empty());
    assert forall|t: int| #[trigger] tier_pick(norm_pairs(known), q, t) is None by {
        assert(tier_scores(norm_pairs(known), q, t).len() == 0);
    }
}

/// Feeding one of the site's names back in gives a name the server treats
/// as the same car — the first in the list that normalizes alike, which is
/// the name itself unless an earlier one collides with it.
pub proof fn law_best_match_known_name_is_a_fixed_point(known: Seq<Seq<char>>, i: int)
    requires
        0 <= i < known.len(),
        normalized(known[i]).len() > 0,
    ensures
        best_match_index(known[i], known) matches Some(j) && j <= i && normalized(known[j])
            == normalized(known[i]),
        (forall|j: int| 0 <= j < i ==> normalized(#[trigger] known[j]) != normalized(known[i]))
            ==> best_match_index(known[i], known) == Some(i),
{
    let keys = known.map_values(|k: Seq<char>| normalized(k));
    let target = normalized(known[i]);
    lemma_first_index(keys, target);
    assert(keys[i] == target);
}

/// No two names of `known` normalize alike.
pub open spec fn distinct_keys(known: Seq<Seq<char>>) -> bool {
    forall|i: int, j: int|
        0 <= i < j < known.len() ==> normalized(#[trigger] known[i]) != normalized(
            #[trigger] known[j],
        )
}

/// Two answers of the matcher over `a` and over `b` name the same car, or
/// both decline.
pub open spec fn same_answer(a: Seq<Seq<char>>, x: Option<int>, b: Seq<Seq<char>>, y: Option<
    int,
>) -> bool {
    match (x, y) {
        (Some(i), Some(j)) => a[i] == b[j],
        (None, None) => true,
        _ => false,
    }
}

/// Every name of `known` that keeps a character under normalization has
/// exactly one entry in [`norm_pairs`], and the entries keep the list's
/// order.
proof fn lemma_norm_pairs_index(known: Seq<Seq<char>>)
    ensures
        forall|j1: int, j2: int|
            0 <= j1 < j2 < norm_pairs(known).len() ==> (#[trigger] norm_pairs(known)[j1]).1 < (
            #[trigger] norm_pairs(known)[j2]).1,
        forall|i: int|
            0 <= i < known.len() && normalized(#[trigger] known[i]).len() > 0 ==> exists|j: int|
                0 <= j < norm_pairs(known).len() && (#[trigger] norm_pairs(known)[j]).1 == i,
    decreases known.len(),
{
    lemma_norm_pairs(known);
    if known.len() > 0 {
        let rest = known.drop_last();
        lemma_norm_pairs_index(rest);
        lemma_norm_pairs(rest);
        let pr = norm_pairs(rest);
        let p = norm_pairs(known);
        assert forall|i: int|
            0 <= i < known.len() && normalized(#[trigger] known[i]).len() > 0 implies exists|j: int|
            0 <= j < p.len() && (#[trigger] p[j]).1 == i by {
            if i < known.len() - 1 {
                assert(rest[i] == known[i]);
                let j = choose|j: int| 0 <= j < pr.len() && (#[trigger] pr[j]).1 == i;
                assert(p[j] == pr[j]);
            } else {
                assert(p[pr.len() as int].1 == i);
            }
        }
    }
}

/// What the exact tier names over `a` it names over `b` too, when both
/// hold the same names and neither has two that normalize alike.
proof fn lemma_exact_transfer(candidate: Seq<char>, a: Seq<Seq<char>>, b: Seq<Seq<char>>)
    requires
        distinct_keys(a),
        distinct_keys(b),
        forall|x: Seq<char>| a.contains(x) <==> b.contains(x),
        exact_index(candidate, a) is Some,
    ensures
        same_answer(a, exact_index(candidate, a), b, exact_index(candidate, b)),
{
    let target = normalized(candidate);
    let ka = a.map_values(|k: Seq<char>| normalized(k));
    let kb = b.map_values(|k: Seq<char>| normalized(k));
    lemma_first_index(ka, target);
    lemma_first_index(kb, target);
    let i = exact_index(candidate, a)->0;
    assert(ka[i] == target);
    let x = a[i];
    assert(a.contains(x));
    assert(b.contains(x));
    let i2 = choose|i2: int| 0 <= i2 < b.len() && b[i2] == x;
    assert(kb[i2] == target);
    let j = first_index(kb, target)->0;
    assert(kb[j] == target);
    if j != i2 {
        if j < i2 {
            assert(normalized(b[j]) != normalized(b[i2]));
        } else {
            assert(normalized(b[i2]) != normalized(b[j]));
        }
    }
}

/// One direction of [`lemma_tier_transfer`].
proof fn lemma_tier_transfer_some(a: Seq<Seq<char>>, b: Seq<Seq<char>>, q: Seq<char>, tier: int)
    requires
        distinct_keys(a),
        distinct_keys(b),
        forall|x: Seq<char>| a.contains(x) <==> b.contains(x),
        tier_pick(norm_pairs(a), q, tier) is Some,
    ensures
        tier_pick(norm_pairs(b), q, tier) is Some,
        same_answer(a, tier_pick(norm_pairs(a), q, tier), b, tier_pick(norm_pairs(b), q, tier)),
{
    let pa = norm_pairs(a);
    let pb = norm_pairs(b);
    lemma_norm_pairs(a);
    lemma_norm_pairs(b);
    lemma_norm_pairs_index(a);
    lemma_norm_pairs_index(b);
    let sa = tier_scores(pa, q, tier);
    let sb = tier_scores(pb, q, tier);
    let k = choose|k: int| is_unique_min(sa, k);
    lemma_unique_min_is_unique(sa, k);
    let i = pa[k].1;
    let x = a[i];
    assert(a.contains(x));
    assert(b.contains(x));
    let i2 = choose|i2: int| 0 <= i2 < b.len() && b[i2] == x;
    assert(normalized(b[i2]).len() > 0);
    let k2 = choose|j: int| 0 <= j < pb.len() && (#[trigger] pb[j]).1 == i2;
    assert(sb[k2] == sa[k]);
    assert forall|j2: int| 0 <= j2 < sb.len() && j2 != k2 && #[trigger] sb[j2] is Some implies sb[k2]->0
        < sb[j2]->0 by {
        let c = pb[j2].1;
        let y = b[c];
        if c == i2 {
            if j2 < k2 {
                assert(pb[j2].1 < pb[k2].1);
            } else {
                assert(pb[k2].1 < pb[j2].1);
            }
        }
        assert(c != i2);
        if c < i2 {
            assert(normalized(b[c]) != normalized(b[i2]));
        } else {
            assert(normalized(b[i2]) != normalized(b[c]));
        }
        assert(y != x);
        assert(b.contains(y));
        assert(a.contains(y));
        let d = choose|d: int| 0 <= d < a.len() && a[d] == y;
        assert(normalized(a[d]).len() > 0);
        let j1 = choose|j: int| 0 <= j < pa.len() && (#[trigger] pa[j]).1 == d;
        assert(j1 != k);
        assert(sa[j1] == sb[j2]);
    }
    assert(is_unique_min(sb, k2));
    lemma_unique_min_is_unique(sb, k2);
}

/// Each fuzzy tier settles on the same name over `a` and over `b`, or
/// declines over both, when both hold the same names and neither has two
/// that normalize alike.
proof fn lemma_tier_transfer(a: Seq<Seq<char>>, b: Seq<Seq<char>>, q: Seq<char>, tier: int)
    requires
        distinct_keys(a),
        distinct_keys(b),
        forall|x: Seq<char>| a.contains(x) <==> b.contains(x),
    ensures
        same_answer(a, tier_pick(norm_pairs(a), q, tier), b, tier_pick(norm_pairs(b), q, tier)),
{
    if tier_pick(norm_pairs(a), q, tier) is Some {
        lemma_tier_transfer_some(a, b, q, tier);
    } else if tier_pick(norm_pairs(b), q, tier) is Some {
        lemma_tier_transfer_some(b, a, q, tier);
    }
}

/// The matcher's answer does not depend on the order of the site's list:
/// over any reordering of a list in which no two names normalize alike, it
/// names the same car, or declines in both orders. No tie is ever broken by
/// position.
pub proof fn law_best_match_ignores_list_order(
    candidate: Seq<char>,
    known: Seq<Seq<char>>,
    perm: Seq<Seq<char>>,
)
    requires
        perm.to_multiset() == known.to_multiset(),
        distinct_keys(known),
    ensures
        same_answer(
            known,
            best_match_index(candidate, known),
            perm,
            best_match_index(candidate, perm),
        ),
{
    broadcast use vstd::seq_lib::to_multiset_contains;

    assert forall|x: Seq<char>| known.contains(x) <==> perm.contains(x) by {
        assert(known.contains(x) <==> known.to_multiset().count(x) > 0);
        assert(perm.contains(x) <==> perm.to_multiset().count(x) > 0);
    }
    assert(known.no_duplicates()) by {
        assert forall|i: int, j: int| 0 <= i < known.len() && 0 <= j < known.len() && i != j implies known[i]
            != known[j] by {
            if i < j {
                assert(normalized(known[i]) != normalized(known[j]));
            } else {
                assert(normalized(known[j]) != normalized(known[i]));
            }
        }
    }
    known.lemma_multiset_has_no_duplicates();
    perm.lemma_multiset_has_no_duplicates_conv();
    assert(distinct_keys(perm)) by {
        assert forall|i: int, j: int| 0 <= i < j < perm.len() implies normalized(
            #[trigger] perm[i],
        ) != normalized(#[trigger] perm[j]) by {
            assert(perm.contains(perm[i]));
            assert(perm.contains(perm[j]));
            let a = choose|a: int| 0 <= a < known.len() && known[a] == perm[i];
            let b = choose|b: int| 0 <= b < known.len() && known[b] == perm[j];
            assert(a != b);
            if a < b {
                assert(normalized(known[a]) != normalized(known[b]));
            } else {
                assert(normalized(known[b]) != normalized(known[a]));
            }
        }
    }
    let q = normalized(candidate);
    if exact_index(candidate, known) is Some {
        lemma_exact_transfer(candidate, known, perm);
    } else if exact_index(candidate, perm) is Some {
        lemma_exact_transfer(candidate, perm, known);
    }
    lemma_tier_transfer(known, perm, q, 0);
    lemma_tier_transfer(known, perm, q, 1);
    lemma_tier_transfer(known, perm, q, 2);
}

/// `n` and the normalized id `q` overlap by containment: one holds the
/// other, and the shorter has at least [`MIN_CONTAIN_LEN`] characters.
pub open spec fn in_containment(q: Seq<char>, n: Seq<char>) -> bool {
    &&& q.len() >= MIN_CONTAIN_LEN
    &&& n.len() >= MIN_CONTAIN_LEN
    &&& (is_substring(q, n) || is_substring(n, q))
}

/// Closest in length wins the containment tier: when no name normalizes to
/// the id itself, and among the names that contain the normalized id or are
/// contained in it one differs from the id's length strictly less than
/// every other such name, that one is named.
pub proof fn law_containment_prefers_the_closest_length(
    candidate: Seq<char>,
    known: Seq<Seq<char>>,
    j: int,
)
    requires
        candidate.len() <= usize::MAX,
        forall|k: int| 0 <= k < known.len() ==> (#[trigger] known[k]).len() <= usize::MAX,
        0 <= j < known.len(),
        forall|k: int|
            0 <= k < known.len() ==> normalized(#[trigger] known[k]) != normalized(candidate),
        in_containment(normalized(candidate), normalized(known[j])),
        forall|k: int|
            0 <= k < known.len() && k != j && in_containment(
                normalized(candidate),
                normalized(#[trigger] known[k]),
            ) ==> abs_diff(normalized(known[j]).len(), normalized(candidate).len()) < abs_diff(
                normalized(known[k]).len(),
                normalized(candidate).len(),
            ),
    ensures
        best_match_index(candidate, known) == Some(j),
{
    let q = normalized(candidate);
    let keys = known.map_values(|k: Seq<char>| normalized(k));
    lemma_first_index(keys, q);
    if first_index(keys, q) is Some {
        let i = first_index(keys, q)->0;
        assert(keys[i] == normalized(known[i]));
    }
    assert(exact_index(candidate, known) is None);
    lemma_normalized_len(candidate);
    let pairs = norm_pairs(known);
    lemma_norm_pairs(known);
    lemma_norm_pairs_index(known);
    let scores = tier_scores(pairs, q, 0);
    lemma_normalized_len(known[j]);
    let k2 = choose|x: int| 0 <= x < pairs.len() && (#[trigger] pairs[x]).1 == j;
    assert(scores[k2] == contain_score(q, normalized(known[j])));
    assert forall|x: int| 0 <= x < scores.len() && x != k2 && #[trigger] scores[x] is Some implies scores[k2]->0
        < scores[x]->0 by {
        let k = pairs[x].1;
        if k == j {
            if x < k2 {
                assert(pairs[x].1 < pairs[k2].1);
            } else {
                assert(pairs[k2].1 < pairs[x].1);
            }
        }
        lemma_normalized_len(known[k]);
        assert(scores[x] == contain_score(q, normalized(known[k])));
        assert(in_containment(q, normalized(known[k])));
    }
    assert(is_unique_min(scores, k2));
    lemma_unique_min_is_unique(scores, k2);
}

} // verus!
