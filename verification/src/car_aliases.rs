//! Curated folder-id → Parc Fermé car-name aliases.
//!
//! The server resolves an uploaded setup's `car` by normalized equality, so a
//! folder id that already normalizes to its display name needs no help. What
//! normalization cannot bridge is a folder id that **abbreviates** its car —
//! iRacing's `mercedesw13` never equals `mercedesamgw13eperformance`. This
//! table closes exactly that gap and is **exceptions-only**: anything absent
//! passes through untouched and the server's 422 still guides the user.
//!
//! iRacing folder ids listed by iRacing as sub-variants of a parent car
//! directory (`rufrt12r/awd` and the like) are deliberately left out until
//! confirmed against a live install: a wrong alias files a setup under the
//! wrong car, which is worse than the 422 it replaces.
use vstd::prelude::*;

use crate::car_match::first_index;
use crate::sim::Sim;
use crate::cars::{lemma_lex_irreflexive, lemma_lex_transitive, lex_lt};
use crate::text::{
    ascii_lower, chars_eq, is_ascii_alnum, normalize_chars, normalized, string_of, to_chars,
};

verus! {

/// The iRacing rows: `(normalized folder id, exact Parc Fermé car name)`.
pub open spec fn spec_iracing_rows() -> Seq<(Seq<char>, Seq<char>)> {
    seq![
        ("acuransxevo22gt3"@, "Acura NSX GT3 EVO 22"@),
        ("amvantageevogt3"@, "Aston Martin Vantage GT3 EVO"@),
        ("amvantagegt4"@, "Aston Martin Vantage GT4"@),
        ("arcachevy25"@, "ARCA Chevrolet SS"@),
        ("arcaford25"@, "ARCA Ford Mustang"@),
        ("arcatoyota25"@, "ARCA Toyota Camry"@),
        ("audir8gt3"@, "Audi R8 LMS GT3"@),
        ("audirs3lms"@, "Audi RS3 LMS TCR"@),
        ("bigblock"@, "Dirt Big Block Modified"@),
        ("bmwlmdh"@, "BMW M Hybrid V8"@),
        ("bmwm4evogt4"@, "BMW M4 G82 GT4"@),
        ("bmwrn2csr"@, "BMW M2 CSR"@),
        ("buicklesabre87"@, "NASCAR Legends Buick LeSabre - 1987"@),
        ("c6r"@, "Chevrolet Corvette C6.R GT1"@),
        ("c7vettedp"@, "Chevrolet Corvette C7 Daytona Prototype"@),
        ("c8rvettegte"@, "Chevrolet Corvette C8.R GTE"@),
        ("cadillacctsvr"@, "Cadillac CTS-V Racecar"@),
        ("cadillacvseriesgtp"@, "Cadillac V-Series.R GTP"@),
        ("camaro2019"@, "NASCAR Xfinity Chevrolet Camaro"@),
        ("chevymontecarlo03"@, "NASCAR Gen 4 Chevrolet Monte Carlo - 2003"@),
        ("chevymontecarlo87"@, "NASCAR Legends Chevrolet Monte Carlo - 1987"@),
        ("chevyvettez06rgt3"@, "Chevrolet Corvette Z06 GT3.R"@),
        ("crosscartn11"@, "FIA Cross Car"@),
        ("dallarail15"@, "Dallara IL-15 (INDY NXT)"@),
        ("dbr9"@, "Aston Martin DBR9 GT1"@),
        ("dirtumpmod"@, "Dirt UMP Modified"@),
        ("ferrarievogt3"@, "Ferrari 488 GT3 Evo 2020"@),
        ("ford34c"@, "Legends Ford '34 Coupe"@),
        ("fordf150"@, "NASCAR Truck Ford F150"@),
        ("fordgt2017"@, "Ford GTE"@),
        ("fordmustanggen3"@, "Supercars Ford Mustang Gen 3"@),
        ("fordmustanggt"@, "Supercars Ford Mustang GT"@),
        ("fordtaurus03"@, "NASCAR Gen 4 Ford Taurus - 2003"@),
        ("fordthunderbird87"@, "NASCAR Legends Ford Thunderbird - 1987"@),
        ("formulair04"@, "FIA F4"@),
        ("formulamazda"@, "Pro Mazda"@),
        ("fr500s"@, "Ford Mustang FR500S"@),
        ("hondacivictyper"@, "Honda Civic Type R TCR"@),
        ("hyundaielantracn7"@, "Hyundai Elantra N TCR"@),
        ("hyundaivelostern"@, "Hyundai Veloster N TCR"@),
        ("indypropm18"@, "Indy Pro 2000 PM-18"@),
        ("jettatdi"@, "VW Jetta TDI Cup"@),
        ("lamborghinievogt3"@, "Lamborghini Hurac\u{e1}n GT3 EVO"@),
        ("latemodel2023"@, "Late Model Stock"@),
        ("mclaren720sgt3"@, "McLaren 720S GT3 EVO"@),
        ("mercedesamgevogt3"@, "Mercedes-AMG GT3 2020"@),
        ("mercedesw12"@, "Mercedes-AMG W12 E Performance"@),
        ("mercedesw13"@, "Mercedes-AMG W13 E Performance"@),
        ("mustang2019"@, "NASCAR Xfinity Ford Mustang"@),
        ("mx52016"@, "Global Mazda MX-5 Cup"@),
        ("pontiacgrandprix87"@, "NASCAR Legends Pontiac Grand Prix - 1987"@),
        ("porsche718gt4"@, "Porsche 718 Cayman GT4 Clubsport MR"@),
        ("porsche911cup"@, "Porsche 911 GT3 Cup (991)"@),
        ("porsche991rsr"@, "Porsche 911 RSR"@),
        ("porsche9922cup"@, "Porsche 911 Cup (992.2)"@),
        ("porsche992rgt3"@, "Porsche 911 GT3 R (992)"@),
        ("pro2lite"@, "Lucas Oil Off Road Pro 2 Lite"@),
        ("pro2truck"@, "Lucas Oil Off Road Pro 2 Truck"@),
        ("pro4truck"@, "Lucas Oil Off Road Pro 4 Truck"@),
        ("raygr22"@, "Ray FF1600"@),
        ("renaultcliocup"@, "Renault Clio"@),
        ("rt2000"@, "Skip Barber Formula 2000"@),
        ("silverado2019"@, "NASCAR Truck Chevrolet Silverado"@),
        ("skmodified"@, "Modified - SK"@),
        ("solstice"@, "Pontiac Solstice"@),
        ("specracer"@, "SCCA Spec Racer Ford"@),
        ("sr8"@, "Radical SR8"@),
        ("superformulalights324"@, "Super Formula Lights"@),
        ("supra2019"@, "NASCAR Xfinity Toyota Supra"@),
        ("toyotatundra2022"@, "NASCAR Truck Toyota Tundra TRD Pro"@),
        ("usf17"@, "USF 2000"@),
    ]
}

/// The alias rows for `sim`. ACC and LMU have no confirmed exceptions yet.
pub open spec fn spec_alias_rows(sim: Sim) -> Seq<(Seq<char>, Seq<char>)> {
    match sim {
        Sim::IRacing => spec_iracing_rows(),
        Sim::Acc => Seq::empty(),
        Sim::Lmu => Seq::empty(),
    }
}

pub open spec fn rows_view(rows: Seq<(&'static str, &'static str)>) -> Seq<(Seq<char>, Seq<char>)> {
    rows.map_values(|p: (&'static str, &'static str)| (p.0@, p.1@))
}

/// The site's car name for folder id `car` in `sim`: the row whose key equals
/// `car` normalized (the first, should two share a key).
pub open spec fn alias_for(sim: Sim, car: Seq<char>) -> Option<Seq<char>> {
    let rows = spec_alias_rows(sim);
    match first_index(rows.map_values(|p: (Seq<char>, Seq<char>)| p.0), normalized(car)) {
        Some(i) => Some(rows[i].1),
        None => None,
    }
}

fn iracing_rows() -> (r: Vec<(&'static str, &'static str)>)
    ensures
        rows_view(r@) == spec_iracing_rows(),
{
    let mut v: Vec<(&'static str, &'static str)> = Vec::new();
    v.push(("acuransxevo22gt3", "Acura NSX GT3 EVO 22"));
    v.push(("amvantageevogt3", "Aston Martin Vantage GT3 EVO"));
    v.push(("amvantagegt4", "Aston Martin Vantage GT4"));
    v.push(("arcachevy25", "ARCA Chevrolet SS"));
    v.push(("arcaford25", "ARCA Ford Mustang"));
    v.push(("arcatoyota25", "ARCA Toyota Camry"));
    v.push(("audir8gt3", "Audi R8 LMS GT3"));
    v.push(("audirs3lms", "Audi RS3 LMS TCR"));
    v.push(("bigblock", "Dirt Big Block Modified"));
    v.push(("bmwlmdh", "BMW M Hybrid V8"));
    v.push(("bmwm4evogt4", "BMW M4 G82 GT4"));
    v.push(("bmwrn2csr", "BMW M2 CSR"));
    v.push(("buicklesabre87", "NASCAR Legends Buick LeSabre - 1987"));
    v.push(("c6r", "Chevrolet Corvette C6.R GT1"));
    v.push(("c7vettedp", "Chevrolet Corvette C7 Daytona Prototype"));
    v.push(("c8rvettegte", "Chevrolet Corvette C8.R GTE"));
    v.push(("cadillacctsvr", "Cadillac CTS-V Racecar"));
    v.push(("cadillacvseriesgtp", "Cadillac V-Series.R GTP"));
    v.push(("camaro2019", "NASCAR Xfinity Chevrolet Camaro"));
    v.push(("chevymontecarlo03", "NASCAR Gen 4 Chevrolet Monte Carlo - 2003"));
    v.push(("chevymontecarlo87", "NASCAR Legends Chevrolet Monte Carlo - 1987"));
    v.push(("chevyvettez06rgt3", "Chevrolet Corvette Z06 GT3.R"));
    v.push(("crosscartn11", "FIA Cross Car"));
    v.push(("dallarail15", "Dallara IL-15 (INDY NXT)"));
    v.push(("dbr9", "Aston Martin DBR9 GT1"));
    v.push(("dirtumpmod", "Dirt UMP Modified"));
    v.push(("ferrarievogt3", "Ferrari 488 GT3 Evo 2020"));
    v.push(("ford34c", "Legends Ford '34 Coupe"));
    v.push(("fordf150", "NASCAR Truck Ford F150"));
    v.push(("fordgt2017", "Ford GTE"));
    v.push(("fordmustanggen3", "Supercars Ford Mustang Gen 3"));
    v.push(("fordmustanggt", "Supercars Ford Mustang GT"));
    v.push(("fordtaurus03", "NASCAR Gen 4 Ford Taurus - 2003"));
    v.push(("fordthunderbird87", "NASCAR Legends Ford Thunderbird - 1987"));
    v.push(("formulair04", "FIA F4"));
    v.push(("formulamazda", "Pro Mazda"));
    v.push(("fr500s", "Ford Mustang FR500S"));
    v.push(("hondacivictyper", "Honda Civic Type R TCR"));
    v.push(("hyundaielantracn7", "Hyundai Elantra N TCR"));
    v.push(("hyundaivelostern", "Hyundai Veloster N TCR"));
    v.push(("indypropm18", "Indy Pro 2000 PM-18"));
    v.push(("jettatdi", "VW Jetta TDI Cup"));
    v.push(("lamborghinievogt3", "Lamborghini Hurac\u{e1}n GT3 EVO"));
    v.push(("latemodel2023", "Late Model Stock"));
    v.push(("mclaren720sgt3", "McLaren 720S GT3 EVO"));
    v.push(("mercedesamgevogt3", "Mercedes-AMG GT3 2020"));
    v.push(("mercedesw12", "Mercedes-AMG W12 E Performance"));
    v.push(("mercedesw13", "Mercedes-AMG W13 E Performance"));
    v.push(("mustang2019", "NASCAR Xfinity Ford Mustang"));
    v.push(("mx52016", "Global Mazda MX-5 Cup"));
    v.push(("pontiacgrandprix87", "NASCAR Legends Pontiac Grand Prix - 1987"));
    v.push(("porsche718gt4", "Porsche 718 Cayman GT4 Clubsport MR"));
    v.push(("porsche911cup", "Porsche 911 GT3 Cup (991)"));
    v.push(("porsche991rsr", "Porsche 911 RSR"));
    v.push(("porsche9922cup", "Porsche 911 Cup (992.2)"));
    v.push(("porsche992rgt3", "Porsche 911 GT3 R (992)"));
    v.push(("pro2lite", "Lucas Oil Off Road Pro 2 Lite"));
    v.push(("pro2truck", "Lucas Oil Off Road Pro 2 Truck"));
    v.push(("pro4truck", "Lucas Oil Off Road Pro 4 Truck"));
    v.push(("raygr22", "Ray FF1600"));
    v.push(("renaultcliocup", "Renault Clio"));
    v.push(("rt2000", "Skip Barber Formula 2000"));
    v.push(("silverado2019", "NASCAR Truck Chevrolet Silverado"));
    v.push(("skmodified", "Modified - SK"));
    v.push(("solstice", "Pontiac Solstice"));
    v.push(("specracer", "SCCA Spec Racer Ford"));
    v.push(("sr8", "Radical SR8"));
    v.push(("superformulalights324", "Super Formula Lights"));
    v.push(("supra2019", "NASCAR Xfinity Toyota Supra"));
    v.push(("toyotatundra2022", "NASCAR Truck Toyota Tundra TRD Pro"));
    v.push(("usf17", "USF 2000"));
    assert(rows_view(v@) =~= spec_iracing_rows());
    v
}

/// The alias table for `sim`.
pub fn table(sim: Sim) -> (r: Vec<(&'static str, &'static str)>)
    ensures
        rows_view(r@) == spec_alias_rows(sim),
{
    match sim {
        Sim::IRacing => iracing_rows(),
        Sim::Acc => {
            let v: Vec<(&'static str, &'static str)> = Vec::new();
            assert(rows_view(v@) =~= spec_alias_rows(sim));
            v
        },
        Sim::Lmu => {
            let v: Vec<(&'static str, &'static str)> = Vec::new();
            assert(rows_view(v@) =~= spec_alias_rows(sim));
            v
        },
    }
}

/// Case-fold and strip to `[a-z0-9]`, mirroring the server's comparison.
pub fn normalize(value: &str) -> (r: String)
    ensures
        r@ == normalized(value@),
{
    string_of(&normalize_chars(&to_chars(value)))
}

/// The site's car name for an on-disk folder id, or `None` when the value
/// isn't a known exception.
pub fn resolve(sim: Sim, car: &str) -> (r: Option<&'static str>)
    ensures
        match alias_for(sim, car@) {
            Some(name) => r matches Some(s) && s@ == name,
            None => r is None,
        },
{
    let key = normalize_chars(&to_chars(car));
    let rows = table(sim);
    let ghost spec_rows = spec_alias_rows(sim);
    let ghost keys = spec_rows.map_values(|p: (Seq<char>, Seq<char>)| p.0);
    assert(key@ == normalized(car@));
    proof {
        crate::car_match::lemma_first_index(keys, key@);
    }
    let mut i: usize = 0;
    while i < rows.len()
        invariant
            i <= rows@.len(),
            rows_view(rows@) == spec_rows,
            spec_rows == spec_alias_rows(sim),
            key@ == normalized(car@),
            keys == spec_rows.map_values(|p: (Seq<char>, Seq<char>)| p.0),
            forall|j: int| 0 <= j < i ==> keys[j] != key@,
            match first_index(keys, key@) {
                Some(f) => 0 <= f < keys.len() && keys[f] == key@ && forall|j: int|
                    0 <= j < f ==> keys[j] != key@,
                None => forall|j: int| 0 <= j < keys.len() ==> keys[j] != key@,
            },
        decreases rows@.len() - i,
    {
        let (folder, name) = rows[i];
        assert(keys[i as int] == folder@);
        assert(spec_rows[i as int].1 == name@);
        if chars_eq(&to_chars(folder), &key) {
            assert(first_index(keys, key@) == Some(i as int));
            return Some(name);
        }
        i = i + 1;
    }
    None
}

/// [`resolve`], falling back to the caller's value untouched.
pub fn apply<'a>(sim: Sim, car: &'a str) -> (r: &'a str)
    ensures
        r@ == match alias_for(sim, car@) {
            Some(name) => name,
            None => car@,
        },
{
    match resolve(sim, car) {
        Some(name) => name,
        None => car,
    }
}

/// Every character is a lower-case ASCII letter or a digit: the shape of a
/// normalized folder key.
pub open spec fn is_folder_key(s: Seq<char>) -> bool {
    forall|i: int|
        0 <= i < s.len() ==> ('a' <= #[trigger] s[i] && s[i] <= 'z') || ('0' <= s[i] && s[i]
            <= '9')
}

/// [`normalized`], read from the front.
pub open spec fn norm_front(s: Seq<char>) -> Seq<char>
    decreases s.len(),
{
    if s.len() == 0 {
        Seq::empty()
    } else if is_ascii_alnum(s[0]) {
        seq![ascii_lower(s[0])] + norm_front(s.drop_first())
    } else {
        norm_front(s.drop_first())
    }
}

proof fn lemma_norm_front_push(s: Seq<char>, c: char)
    ensures
        norm_front(s.push(c)) == norm_front(s) + (if is_ascii_alnum(c) {
            seq![ascii_lower(c)]
        } else {
            Seq::empty()
        }),
    decreases s.len(),
{
    let tail = if is_ascii_alnum(c) {
        seq![ascii_lower(c)]
    } else {
        Seq::empty()
    };
    if s.len() == 0 {
        assert(s.push(c).drop_first() =~= Seq::<char>::empty());
        assert(norm_front(Seq::<char>::empty()) == Seq::<char>::empty());
        assert(norm_front(s.push(c)) =~= norm_front(s) + tail);
    } else {
        assert(s.push(c).drop_first() =~= s.drop_first().push(c));
        lemma_norm_front_push(s.drop_first(), c);
        if is_ascii_alnum(s[0]) {
            assert(norm_front(s.push(c)) =~= norm_front(s) + tail);
        } else {
            assert(norm_front(s.push(c)) =~= norm_front(s) + tail);
        }
    }
}

/// Reading from the front normalizes as [`normalized`] does.
proof fn lemma_norm_front_is_normalized(s: Seq<char>)
    ensures
        norm_front(s) == normalized(s),
    decreases s.len(),
{
    if s.len() > 0 {
        lemma_norm_front_is_normalized(s.drop_last());
        assert(s.drop_last().push(s.last()) =~= s);
        lemma_norm_front_push(s.drop_last(), s.last());
        if is_ascii_alnum(s.last()) {
            assert(normalized(s) =~= normalized(s.drop_last()) + seq![ascii_lower(s.last())]);
        } else {
            assert(normalized(s) =~= normalized(s.drop_last()) + Seq::<char>::empty());
        }
    }
}

/// A folder key is its own normal form.
proof fn lemma_folder_key_is_normalized(s: Seq<char>)
    requires
        is_folder_key(s),
    ensures
        normalized(s) == s,
    decreases s.len(),
{
    if s.len() > 0 {
        let t = s.drop_last();
        assert(is_folder_key(t)) by {
            assert forall|i: int| 0 <= i < t.len() implies ('a' <= #[trigger] t[i] && t[i] <= 'z')
                || ('0' <= t[i] && t[i] <= '9') by {
                assert(t[i] == s[i]);
            }
        }
        lemma_folder_key_is_normalized(t);
        assert(s[s.len() - 1] == s.last());
        assert(t.push(s.last()) =~= s);
    }
}

/// Keys in strictly increasing order, row to row, are pairwise ordered.
proof fn lemma_keys_ascend(rows: Seq<(Seq<char>, Seq<char>)>, i: int, j: int)
    requires
        forall|k: int| 0 <= k < rows.len() - 1 ==> lex_lt(#[trigger] rows[k].0, rows[k + 1].0),
        0 <= i < j < rows.len(),
    ensures
        lex_lt(rows[i].0, rows[j].0),
    decreases j - i,
{
    if j > i + 1 {
        lemma_keys_ascend(rows, i, j - 1);
        assert(lex_lt(rows[j - 1].0, rows[j].0));
        lemma_lex_transitive(rows[i].0, rows[j - 1].0, rows[j].0);
    }
}

/// Row `k` of `rows` is a reachable, needed exception ordered before the
/// next: its key is a folder key, its name does not normalize to that key,
/// and its key is below the next row's.
pub open spec fn row_is_exception(rows: Seq<(Seq<char>, Seq<char>)>, k: int) -> bool {
    &&& is_folder_key(rows[k].0)
    &&& norm_front(rows[k].1) != rows[k].0
    &&& k + 1 < rows.len() ==> lex_lt(rows[k].0, rows[k + 1].0)
}

// The iRacing rows three at a time: each literal is revealed, the name's
// normalization is unfolded as far as a character (or the length) where it
// departs from the key, and the key order is unfolded to the first
// difference with the next key.
#[verifier::spinoff_prover]
#[verifier::rlimit(100)]
proof fn lemma_iracing_rows_0_3(k: int)
    requires
        0 <= k < 3,
    ensures
        row_is_exception(spec_iracing_rows(), k),
{
    let rows = spec_iracing_rows();
    reveal_with_fuel(norm_front, 12);
    reveal_with_fuel(lex_lt, 11);
    if k == 0 {
        reveal_strlit("acuransxevo22gt3");
        reveal_strlit("Acura NSX GT3 EVO 22");
        assert(rows[0] == ("acuransxevo22gt3"@, "Acura NSX GT3 EVO 22"@));
        assert(norm_front(rows[0].1)[8] == 'g');
        assert(rows[0].0[8] == 'e');
        reveal_strlit("amvantageevogt3");
        assert(rows[1].0 == "amvantageevogt3"@);
        assert(lex_lt(rows[0].0, rows[1].0));
    } else if k == 1 {
        reveal_strlit("amvantageevogt3");
        reveal_strlit("Aston Martin Vantage GT3 EVO");
        assert(rows[1] == ("amvantageevogt3"@, "Aston Martin Vantage GT3 EVO"@));
        assert(norm_front(rows[1].1)[1] == 's');
        assert(rows[1].0[1] == 'm');
        reveal_strlit("amvantagegt4");
        assert(rows[2].0 == "amvantagegt4"@);
        assert(lex_lt(rows[1].0, rows[2].0));
    } else if k == 2 {
        reveal_strlit("amvantagegt4");
        reveal_strlit("Aston Martin Vantage GT4");
        assert(rows[2] == ("amvantagegt4"@, "Aston Martin Vantage GT4"@));
        assert(norm_front(rows[2].1)[1] == 's');
        assert(rows[2].0[1] == 'm');
        reveal_strlit("arcachevy25");
        assert(rows[3].0 == "arcachevy25"@);
        assert(lex_lt(rows[2].0, rows[3].0));
    }
}

#[verifier::spinoff_prover]
#[verifier::rlimit(100)]
proof fn lemma_iracing_rows_3_6(k: int)
    requires
        3 <= k < 6,
    ensures
        row_is_exception(spec_iracing_rows(), k),
{
    let rows = spec_iracing_rows();
    reveal_with_fuel(norm_front, 14);
    reveal_with_fuel(lex_lt, 6);
    if k == 3 {
        reveal_strlit("arcachevy25");
        reveal_strlit("ARCA Chevrolet SS");
        assert(rows[3] == ("arcachevy25"@, "ARCA Chevrolet SS"@));
        assert(norm_front(rows[3].1)[8] == 'r');
        assert(rows[3].0[8] == 'y');
        reveal_strlit("arcaford25");
        assert(rows[4].0 == "arcaford25"@);
        assert(lex_lt(rows[3].0, rows[4].0));
    } else if k == 4 {
        reveal_strlit("arcaford25");
        reveal_strlit("ARCA Ford Mustang");
        assert(rows[4] == ("arcaford25"@, "ARCA Ford Mustang"@));
        assert(norm_front(rows[4].1)[8] == 'm');
        assert(rows[4].0[8] == '2');
        reveal_strlit("arcatoyota25");
        assert(rows[5].0 == "arcatoyota25"@);
        assert(lex_lt(rows[4].0, rows[5].0));
    } else if k == 5 {
        reveal_strlit("arcatoyota25");
        reveal_strlit("ARCA Toyota Camry");
        assert(rows[5] == ("arcatoyota25"@, "ARCA Toyota Camry"@));
        assert(norm_front(rows[5].1)[10] == 'c');
        assert(rows[5].0[10] == '2');
        reveal_strlit("audir8gt3");
        assert(rows[6].0 == "audir8gt3"@);
        assert(lex_lt(rows[5].0, rows[6].0));
    }
}

#[verifier::spinoff_prover]
#[verifier::rlimit(100)]
proof fn lemma_iracing_rows_6_9(k: int)
    requires
        6 <= k < 9,
    ensures
        row_is_exception(spec_iracing_rows(), k),
{
    let rows = spec_iracing_rows();
    reveal_with_fuel(norm_front, 18);
    reveal_with_fuel(lex_lt, 7);
    if k == 6 {
        reveal_strlit("audir8gt3");
        reveal_strlit("Audi R8 LMS GT3");
        assert(rows[6] == ("audir8gt3"@, "Audi R8 LMS GT3"@));
        assert(norm_front(rows[6].1)[6] == 'l');
        assert(rows[6].0[6] == 'g');
        reveal_strlit("audirs3lms");
        assert(rows[7].0 == "audirs3lms"@);
        assert(lex_lt(rows[6].0, rows[7].0));
    } else if k == 7 {
        reveal_strlit("audirs3lms");
        reveal_strlit("Audi RS3 LMS TCR");
        assert(rows[7] == ("audirs3lms"@, "Audi RS3 LMS TCR"@));
        assert(norm_front(rows[7].1).len() == 13);
        reveal_strlit("bigblock");
        assert(rows[8].0 == "bigblock"@);
        assert(lex_lt(rows[7].0, rows[8].0));
    } else if k == 8 {
        reveal_strlit("bigblock");
        reveal_strlit("Dirt Big Block Modified");
        assert(rows[8] == ("bigblock"@, "Dirt Big Block Modified"@));
        assert(norm_front(rows[8].1)[0] == 'd');
        assert(rows[8].0[0] == 'b');
        reveal_strlit("bmwlmdh");
        assert(rows[9].0 == "bmwlmdh"@);
        assert(lex_lt(rows[8].0, rows[9].0));
    }
}

#[verifier::spinoff_prover]
#[verifier::rlimit(100)]
proof fn lemma_iracing_rows_9_12(k: int)
    requires
        9 <= k < 12,
    ensures
        row_is_exception(spec_iracing_rows(), k),
{
    let rows = spec_iracing_rows();
    reveal_with_fuel(norm_front, 9);
    reveal_with_fuel(lex_lt, 5);
    if k == 9 {
        reveal_strlit("bmwlmdh");
        reveal_strlit("BMW M Hybrid V8");
        assert(rows[9] == ("bmwlmdh"@, "BMW M Hybrid V8"@));
        assert(norm_front(rows[9].1)[3] == 'm');
        assert(rows[9].0[3] == 'l');
        reveal_strlit("bmwm4evogt4");
        assert(rows[10].0 == "bmwm4evogt4"@);
        assert(lex_lt(rows[9].0, rows[10].0));
    } else if k == 10 {
        reveal_strlit("bmwm4evogt4");
        reveal_strlit("BMW M4 G82 GT4");
        assert(rows[10] == ("bmwm4evogt4"@, "BMW M4 G82 GT4"@));
        assert(norm_front(rows[10].1)[5] == 'g');
        assert(rows[10].0[5] == 'e');
        reveal_strlit("bmwrn2csr");
        assert(rows[11].0 == "bmwrn2csr"@);
        assert(lex_lt(rows[10].0, rows[11].0));
    } else if k == 11 {
        reveal_strlit("bmwrn2csr");
        reveal_strlit("BMW M2 CSR");
        assert(rows[11] == ("bmwrn2csr"@, "BMW M2 CSR"@));
        assert(norm_front(rows[11].1)[3] == 'm');
        assert(rows[11].0[3] == 'r');
        reveal_strlit("buicklesabre87");
        assert(rows[12].0 == "buicklesabre87"@);
        assert(lex_lt(rows[11].0, rows[12].0));
    }
}

#[verifier::spinoff_prover]
#[verifier::rlimit(100)]
proof fn lemma_iracing_rows_12_15(k: int)
    requires
        12 <= k < 15,
    ensures
        row_is_exception(spec_iracing_rows(), k),
{
    let rows = spec_iracing_rows();
    reveal_with_fuel(norm_front, 3);
    reveal_with_fuel(lex_lt, 3);
    if k == 12 {
        reveal_strlit("buicklesabre87");
        reveal_strlit("NASCAR Legends Buick LeSabre - 1987");
        assert(rows[12] == ("buicklesabre87"@, "NASCAR Legends Buick LeSabre - 1987"@));
        assert(norm_front(rows[12].1)[0] == 'n');
        assert(rows[12].0[0] == 'b');
        reveal_strlit("c6r");
        assert(rows[13].0 == "c6r"@);
        assert(lex_lt(rows[12].0, rows[13].0));
    } else if k == 13 {
        reveal_strlit("c6r");
        reveal_strlit("Chevrolet Corvette C6.R GT1");
        assert(rows[13] == ("c6r"@, "Chevrolet Corvette C6.R GT1"@));
        assert(norm_front(rows[13].1)[1] == 'h');
        assert(rows[13].0[1] == '6');
        reveal_strlit("c7vettedp");
        assert(rows[14].0 == "c7vettedp"@);
        assert(lex_lt(rows[13].0, rows[14].0));
    } else if k == 14 {
        reveal_strlit("c7vettedp");
        reveal_strlit("Chevrolet Corvette C7 Daytona Prototype");
        assert(rows[14] == ("c7vettedp"@, "Chevrolet Corvette C7 Daytona Prototype"@));
        assert(norm_front(rows[14].1)[1] == 'h');
        assert(rows[14].0[1] == '7');
        reveal_strlit("c8rvettegte");
        assert(rows[15].0 == "c8rvettegte"@);
        assert(lex_lt(rows[14].0, rows[15].0));
    }
}

#[verifier::spinoff_prover]
#[verifier::rlimit(100)]
proof fn lemma_iracing_rows_15_18(k: int)
    requires
        15 <= k < 18,
    ensures
        row_is_exception(spec_iracing_rows(), k),
{
    let rows = spec_iracing_rows();
    reveal_with_fuel(norm_front, 24);
    reveal_with_fuel(lex_lt, 10);
    if k == 15 {
        reveal_strlit("c8rvettegte");
        reveal_strlit("Chevrolet Corvette C8.R GTE");
        assert(rows[15] == ("c8rvettegte"@, "Chevrolet Corvette C8.R GTE"@));
        assert(norm_front(rows[15].1)[1] == 'h');
        assert(rows[15].0[1] == '8');
        reveal_strlit("cadillacctsvr");
        assert(rows[16].0 == "cadillacctsvr"@);
        assert(lex_lt(rows[15].0, rows[16].0));
    } else if k == 16 {
        reveal_strlit("cadillacctsvr");
        reveal_strlit("Cadillac CTS-V Racecar");
        assert(rows[16] == ("cadillacctsvr"@, "Cadillac CTS-V Racecar"@));
        assert(norm_front(rows[16].1).len() == 19);
        reveal_strlit("cadillacvseriesgtp");
        assert(rows[17].0 == "cadillacvseriesgtp"@);
        assert(lex_lt(rows[16].0, rows[17].0));
    } else if k == 17 {
        reveal_strlit("cadillacvseriesgtp");
        reveal_strlit("Cadillac V-Series.R GTP");
        assert(rows[17] == ("cadillacvseriesgtp"@, "Cadillac V-Series.R GTP"@));
        assert(norm_front(rows[17].1)[15] == 'r');
        assert(rows[17].0[15] == 'g');
        reveal_strlit("camaro2019");
        assert(rows[18].0 == "camaro2019"@);
        assert(lex_lt(rows[17].0, rows[18].0));
    }
}

#[verifier::spinoff_prover]
#[verifier::rlimit(100)]
proof fn lemma_iracing_rows_18_21(k: int)
    requires
        18 <= k < 21,
    ensures
        row_is_exception(spec_iracing_rows(), k),
{
    let rows = spec_iracing_rows();
    reveal_with_fuel(norm_front, 2);
    reveal_with_fuel(lex_lt, 17);
    if k == 18 {
        reveal_strlit("camaro2019");
        reveal_strlit("NASCAR Xfinity Chevrolet Camaro");
        assert(rows[18] == ("camaro2019"@, "NASCAR Xfinity Chevrolet Camaro"@));
        assert(norm_front(rows[18].1)[0] == 'n');
        assert(rows[18].0[0] == 'c');
        reveal_strlit("chevymontecarlo03");
        assert(rows[19].0 == "chevymontecarlo03"@);
        assert(lex_lt(rows[18].0, rows[19].0));
    } else if k == 19 {
        reveal_strlit("chevymontecarlo03");
        reveal_strlit("NASCAR Gen 4 Chevrolet Monte Carlo - 2003");
        assert(rows[19] == ("chevymontecarlo03"@, "NASCAR Gen 4 Chevrolet Monte Carlo - 2003"@));
        assert(norm_front(rows[19].1)[0] == 'n');
        assert(rows[19].0[0] == 'c');
        reveal_strlit("chevymontecarlo87");
        assert(rows[20].0 == "chevymontecarlo87"@);
        assert(lex_lt(rows[19].0, rows[20].0));
    } else if k == 20 {
        reveal_strlit("chevymontecarlo87");
        reveal_strlit("NASCAR Legends Chevrolet Monte Carlo - 1987");
        assert(rows[20] == ("chevymontecarlo87"@, "NASCAR Legends Chevrolet Monte Carlo - 1987"@));
        assert(norm_front(rows[20].1)[0] == 'n');
        assert(rows[20].0[0] == 'c');
        reveal_strlit("chevyvettez06rgt3");
        assert(rows[21].0 == "chevyvettez06rgt3"@);
        assert(lex_lt(rows[20].0, rows[21].0));
    }
}

#[verifier::spinoff_prover]
#[verifier::rlimit(100)]
proof fn lemma_iracing_rows_21_24(k: int)
    requires
        21 <= k < 24,
    ensures
        row_is_exception(spec_iracing_rows(), k),
{
    let rows = spec_iracing_rows();
    reveal_with_fuel(norm_front, 26);
    reveal_with_fuel(lex_lt, 3);
    if k == 21 {
        reveal_strlit("chevyvettez06rgt3");
        reveal_strlit("Chevrolet Corvette Z06 GT3.R");
        assert(rows[21] == ("chevyvettez06rgt3"@, "Chevrolet Corvette Z06 GT3.R"@));
        assert(norm_front(rows[21].1)[4] == 'r');
        assert(rows[21].0[4] == 'y');
        reveal_strlit("crosscartn11");
        assert(rows[22].0 == "crosscartn11"@);
        assert(lex_lt(rows[21].0, rows[22].0));
    } else if k == 22 {
        reveal_strlit("crosscartn11");
        reveal_strlit("FIA Cross Car");
        assert(rows[22] == ("crosscartn11"@, "FIA Cross Car"@));
        assert(norm_front(rows[22].1)[0] == 'f');
        assert(rows[22].0[0] == 'c');
        reveal_strlit("dallarail15");
        assert(rows[23].0 == "dallarail15"@);
        assert(lex_lt(rows[22].0, rows[23].0));
    } else if k == 23 {
        reveal_strlit("dallarail15");
        reveal_strlit("Dallara IL-15 (INDY NXT)");
        assert(rows[23] == ("dallarail15"@, "Dallara IL-15 (INDY NXT)"@));
        assert(norm_front(rows[23].1).len() == 18);
        reveal_strlit("dbr9");
        assert(rows[24].0 == "dbr9"@);
        assert(lex_lt(rows[23].0, rows[24].0));
    }
}

#[verifier::spinoff_prover]
#[verifier::rlimit(100)]
proof fn lemma_iracing_rows_24_27(k: int)
    requires
        24 <= k < 27,
    ensures
        row_is_exception(spec_iracing_rows(), k),
{
    let rows = spec_iracing_rows();
    reveal_with_fuel(norm_front, 19);
    reveal_with_fuel(lex_lt, 3);
    if k == 24 {
        reveal_strlit("dbr9");
        reveal_strlit("Aston Martin DBR9 GT1");
        assert(rows[24] == ("dbr9"@, "Aston Martin DBR9 GT1"@));
        assert(norm_front(rows[24].1)[0] == 'a');
        assert(rows[24].0[0] == 'd');
        reveal_strlit("dirtumpmod");
        assert(rows[25].0 == "dirtumpmod"@);
        assert(lex_lt(rows[24].0, rows[25].0));
    } else if k == 25 {
        reveal_strlit("dirtumpmod");
        reveal_strlit("Dirt UMP Modified");
        assert(rows[25] == ("dirtumpmod"@, "Dirt UMP Modified"@));
        assert(norm_front(rows[25].1).len() == 15);
        reveal_strlit("ferrarievogt3");
        assert(rows[26].0 == "ferrarievogt3"@);
        assert(lex_lt(rows[25].0, rows[26].0));
    } else if k == 26 {
        reveal_strlit("ferrarievogt3");
        reveal_strlit("Ferrari 488 GT3 Evo 2020");
        assert(rows[26] == ("ferrarievogt3"@, "Ferrari 488 GT3 Evo 2020"@));
        assert(norm_front(rows[26].1)[7] == '4');
        assert(rows[26].0[7] == 'e');
        reveal_strlit("ford34c");
        assert(rows[27].0 == "ford34c"@);
        assert(lex_lt(rows[26].0, rows[27].0));
    }
}

#[verifier::spinoff_prover]
#[verifier::rlimit(100)]
proof fn lemma_iracing_rows_27_30(k: int)
    requires
        27 <= k < 30,
    ensures
        row_is_exception(spec_iracing_rows(), k),
{
    let rows = spec_iracing_rows();
    reveal_with_fuel(norm_front, 9);
    reveal_with_fuel(lex_lt, 6);
    if k == 27 {
        reveal_strlit("ford34c");
        reveal_strlit("Legends Ford '34 Coupe");
        assert(rows[27] == ("ford34c"@, "Legends Ford '34 Coupe"@));
        assert(norm_front(rows[27].1)[0] == 'l');
        assert(rows[27].0[0] == 'f');
        reveal_strlit("fordf150");
        assert(rows[28].0 == "fordf150"@);
        assert(lex_lt(rows[27].0, rows[28].0));
    } else if k == 28 {
        reveal_strlit("fordf150");
        reveal_strlit("NASCAR Truck Ford F150");
        assert(rows[28] == ("fordf150"@, "NASCAR Truck Ford F150"@));
        assert(norm_front(rows[28].1)[0] == 'n');
        assert(rows[28].0[0] == 'f');
        reveal_strlit("fordgt2017");
        assert(rows[29].0 == "fordgt2017"@);
        assert(lex_lt(rows[28].0, rows[29].0));
    } else if k == 29 {
        reveal_strlit("fordgt2017");
        reveal_strlit("Ford GTE");
        assert(rows[29] == ("fordgt2017"@, "Ford GTE"@));
        assert(norm_front(rows[29].1)[6] == 'e');
        assert(rows[29].0[6] == '2');
        reveal_strlit("fordmustanggen3");
        assert(rows[30].0 == "fordmustanggen3"@);
        assert(lex_lt(rows[29].0, rows[30].0));
    }
}

#[verifier::spinoff_prover]
#[verifier::rlimit(100)]
proof fn lemma_iracing_rows_30_33(k: int)
    requires
        30 <= k < 33,
    ensures
        row_is_exception(spec_iracing_rows(), k),
{
    let rows = spec_iracing_rows();
    reveal_with_fuel(norm_front, 2);
    reveal_with_fuel(lex_lt, 14);
    if k == 30 {
        reveal_strlit("fordmustanggen3");
        reveal_strlit("Supercars Ford Mustang Gen 3");
        assert(rows[30] == ("fordmustanggen3"@, "Supercars Ford Mustang Gen 3"@));
        assert(norm_front(rows[30].1)[0] == 's');
        assert(rows[30].0[0] == 'f');
        reveal_strlit("fordmustanggt");
        assert(rows[31].0 == "fordmustanggt"@);
        assert(lex_lt(rows[30].0, rows[31].0));
    } else if k == 31 {
        reveal_strlit("fordmustanggt");
        reveal_strlit("Supercars Ford Mustang GT");
        assert(rows[31] == ("fordmustanggt"@, "Supercars Ford Mustang GT"@));
        assert(norm_front(rows[31].1)[0] == 's');
        assert(rows[31].0[0] == 'f');
        reveal_strlit("fordtaurus03");
        assert(rows[32].0 == "fordtaurus03"@);
        assert(lex_lt(rows[31].0, rows[32].0));
    } else if k == 32 {
        reveal_strlit("fordtaurus03");
        reveal_strlit("NASCAR Gen 4 Ford Taurus - 2003");
        assert(rows[32] == ("fordtaurus03"@, "NASCAR Gen 4 Ford Taurus - 2003"@));
        assert(norm_front(rows[32].1)[0] == 'n');
        assert(rows[32].0[0] == 'f');
        reveal_strlit("fordthunderbird87");
        assert(rows[33].0 == "fordthunderbird87"@);
        assert(lex_lt(rows[32].0, rows[33].0));
    }
}

#[verifier::spinoff_prover]
#[verifier::rlimit(100)]
proof fn lemma_iracing_rows_33_36(k: int)
    requires
        33 <= k < 36,
    ensures
        row_is_exception(spec_iracing_rows(), k),
{
    let rows = spec_iracing_rows();
    reveal_with_fuel(norm_front, 3);
    reveal_with_fuel(lex_lt, 9);
    if k == 33 {
        reveal_strlit("fordthunderbird87");
        reveal_strlit("NASCAR Legends Ford Thunderbird - 1987");
        assert(rows[33] == ("fordthunderbird87"@, "NASCAR Legends Ford Thunderbird - 1987"@));
        assert(norm_front(rows[33].1)[0] == 'n');
        assert(rows[33].0[0] == 'f');
        reveal_strlit("formulair04");
        assert(rows[34].0 == "formulair04"@);
        assert(lex_lt(rows[33].0, rows[34].0));
    } else if k == 34 {
        reveal_strlit("formulair04");
        reveal_strlit("FIA F4");
        assert(rows[34] == ("formulair04"@, "FIA F4"@));
        assert(norm_front(rows[34].1)[1] == 'i');
        assert(rows[34].0[1] == 'o');
        reveal_strlit("formulamazda");
        assert(rows[35].0 == "formulamazda"@);
        assert(lex_lt(rows[34].0, rows[35].0));
    } else if k == 35 {
        reveal_strlit("formulamazda");
        reveal_strlit("Pro Mazda");
        assert(rows[35] == ("formulamazda"@, "Pro Mazda"@));
        assert(norm_front(rows[35].1)[0] == 'p');
        assert(rows[35].0[0] == 'f');
        reveal_strlit("fr500s");
        assert(rows[36].0 == "fr500s"@);
        assert(lex_lt(rows[35].0, rows[36].0));
    }
}

#[verifier::spinoff_prover]
#[verifier::rlimit(100)]
proof fn lemma_iracing_rows_36_39(k: int)
    requires
        36 <= k < 39,
    ensures
        row_is_exception(spec_iracing_rows(), k),
{
    let rows = spec_iracing_rows();
    reveal_with_fuel(norm_front, 24);
    reveal_with_fuel(lex_lt, 9);
    if k == 36 {
        reveal_strlit("fr500s");
        reveal_strlit("Ford Mustang FR500S");
        assert(rows[36] == ("fr500s"@, "Ford Mustang FR500S"@));
        assert(norm_front(rows[36].1)[1] == 'o');
        assert(rows[36].0[1] == 'r');
        reveal_strlit("hondacivictyper");
        assert(rows[37].0 == "hondacivictyper"@);
        assert(lex_lt(rows[36].0, rows[37].0));
    } else if k == 37 {
        reveal_strlit("hondacivictyper");
        reveal_strlit("Honda Civic Type R TCR");
        assert(rows[37] == ("hondacivictyper"@, "Honda Civic Type R TCR"@));
        assert(norm_front(rows[37].1).len() == 18);
        reveal_strlit("hyundaielantracn7");
        assert(rows[38].0 == "hyundaielantracn7"@);
        assert(lex_lt(rows[37].0, rows[38].0));
    } else if k == 38 {
        reveal_strlit("hyundaielantracn7");
        reveal_strlit("Hyundai Elantra N TCR");
        assert(rows[38] == ("hyundaielantracn7"@, "Hyundai Elantra N TCR"@));
        assert(norm_front(rows[38].1)[14] == 'n');
        assert(rows[38].0[14] == 'c');
        reveal_strlit("hyundaivelostern");
        assert(rows[39].0 == "hyundaivelostern"@);
        assert(lex_lt(rows[38].0, rows[39].0));
    }
}

#[verifier::spinoff_prover]
#[verifier::rlimit(100)]
proof fn lemma_iracing_rows_39_42(k: int)
    requires
        39 <= k < 42,
    ensures
        row_is_exception(spec_iracing_rows(), k),
{
    let rows = spec_iracing_rows();
    reveal_with_fuel(norm_front, 24);
    reveal_with_fuel(lex_lt, 2);
    if k == 39 {
        reveal_strlit("hyundaivelostern");
        reveal_strlit("Hyundai Veloster N TCR");
        assert(rows[39] == ("hyundaivelostern"@, "Hyundai Veloster N TCR"@));
        assert(norm_front(rows[39].1).len() == 19);
        reveal_strlit("indypropm18");
        assert(rows[40].0 == "indypropm18"@);
        assert(lex_lt(rows[39].0, rows[40].0));
    } else if k == 40 {
        reveal_strlit("indypropm18");
        reveal_strlit("Indy Pro 2000 PM-18");
        assert(rows[40] == ("indypropm18"@, "Indy Pro 2000 PM-18"@));
        assert(norm_front(rows[40].1)[7] == '2');
        assert(rows[40].0[7] == 'p');
        reveal_strlit("jettatdi");
        assert(rows[41].0 == "jettatdi"@);
        assert(lex_lt(rows[40].0, rows[41].0));
    } else if k == 41 {
        reveal_strlit("jettatdi");
        reveal_strlit("VW Jetta TDI Cup");
        assert(rows[41] == ("jettatdi"@, "VW Jetta TDI Cup"@));
        assert(norm_front(rows[41].1)[0] == 'v');
        assert(rows[41].0[0] == 'j');
        reveal_strlit("lamborghinievogt3");
        assert(rows[42].0 == "lamborghinievogt3"@);
        assert(lex_lt(rows[41].0, rows[42].0));
    }
}

#[verifier::spinoff_prover]
#[verifier::rlimit(100)]
proof fn lemma_iracing_rows_42_45(k: int)
    requires
        42 <= k < 45,
    ensures
        row_is_exception(spec_iracing_rows(), k),
{
    let rows = spec_iracing_rows();
    reveal_with_fuel(norm_front, 22);
    reveal_with_fuel(lex_lt, 4);
    if k == 42 {
        reveal_strlit("lamborghinievogt3");
        reveal_strlit("Lamborghini Hurac\u{e1}n GT3 EVO");
        assert(rows[42] == ("lamborghinievogt3"@, "Lamborghini Hurac\u{e1}n GT3 EVO"@));
        assert(norm_front(rows[42].1)[11] == 'h');
        assert(rows[42].0[11] == 'e');
        reveal_strlit("latemodel2023");
        assert(rows[43].0 == "latemodel2023"@);
        assert(lex_lt(rows[42].0, rows[43].0));
    } else if k == 43 {
        reveal_strlit("latemodel2023");
        reveal_strlit("Late Model Stock");
        assert(rows[43] == ("latemodel2023"@, "Late Model Stock"@));
        assert(norm_front(rows[43].1)[9] == 's');
        assert(rows[43].0[9] == '2');
        reveal_strlit("mclaren720sgt3");
        assert(rows[44].0 == "mclaren720sgt3"@);
        assert(lex_lt(rows[43].0, rows[44].0));
    } else if k == 44 {
        reveal_strlit("mclaren720sgt3");
        reveal_strlit("McLaren 720S GT3 EVO");
        assert(rows[44] == ("mclaren720sgt3"@, "McLaren 720S GT3 EVO"@));
        assert(norm_front(rows[44].1).len() == 17);
        reveal_strlit("mercedesamgevogt3");
        assert(rows[45].0 == "mercedesamgevogt3"@);
        assert(lex_lt(rows[44].0, rows[45].0));
    }
}

#[verifier::spinoff_prover]
#[verifier::rlimit(100)]
proof fn lemma_iracing_rows_45_48(k: int)
    requires
        45 <= k < 48,
    ensures
        row_is_exception(spec_iracing_rows(), k),
{
    let rows = spec_iracing_rows();
    reveal_with_fuel(norm_front, 15);
    reveal_with_fuel(lex_lt, 12);
    if k == 45 {
        reveal_strlit("mercedesamgevogt3");
        reveal_strlit("Mercedes-AMG GT3 2020");
        assert(rows[45] == ("mercedesamgevogt3"@, "Mercedes-AMG GT3 2020"@));
        assert(norm_front(rows[45].1)[11] == 'g');
        assert(rows[45].0[11] == 'e');
        reveal_strlit("mercedesw12");
        assert(rows[46].0 == "mercedesw12"@);
        assert(lex_lt(rows[45].0, rows[46].0));
    } else if k == 46 {
        reveal_strlit("mercedesw12");
        reveal_strlit("Mercedes-AMG W12 E Performance");
        assert(rows[46] == ("mercedesw12"@, "Mercedes-AMG W12 E Performance"@));
        assert(norm_front(rows[46].1)[8] == 'a');
        assert(rows[46].0[8] == 'w');
        reveal_strlit("mercedesw13");
        assert(rows[47].0 == "mercedesw13"@);
        assert(lex_lt(rows[46].0, rows[47].0));
    } else if k == 47 {
        reveal_strlit("mercedesw13");
        reveal_strlit("Mercedes-AMG W13 E Performance");
        assert(rows[47] == ("mercedesw13"@, "Mercedes-AMG W13 E Performance"@));
        assert(norm_front(rows[47].1)[8] == 'a');
        assert(rows[47].0[8] == 'w');
        reveal_strlit("mustang2019");
        assert(rows[48].0 == "mustang2019"@);
        assert(lex_lt(rows[47].0, rows[48].0));
    }
}

#[verifier::spinoff_prover]
#[verifier::rlimit(100)]
proof fn lemma_iracing_rows_48_51(k: int)
    requires
        48 <= k < 51,
    ensures
        row_is_exception(spec_iracing_rows(), k),
{
    let rows = spec_iracing_rows();
    reveal_with_fuel(norm_front, 2);
    reveal_with_fuel(lex_lt, 4);
    if k == 48 {
        reveal_strlit("mustang2019");
        reveal_strlit("NASCAR Xfinity Ford Mustang");
        assert(rows[48] == ("mustang2019"@, "NASCAR Xfinity Ford Mustang"@));
        assert(norm_front(rows[48].1)[0] == 'n');
        assert(rows[48].0[0] == 'm');
        reveal_strlit("mx52016");
        assert(rows[49].0 == "mx52016"@);
        assert(lex_lt(rows[48].0, rows[49].0));
    } else if k == 49 {
        reveal_strlit("mx52016");
        reveal_strlit("Global Mazda MX-5 Cup");
        assert(rows[49] == ("mx52016"@, "Global Mazda MX-5 Cup"@));
        assert(norm_front(rows[49].1)[0] == 'g');
        assert(rows[49].0[0] == 'm');
        reveal_strlit("pontiacgrandprix87");
        assert(rows[50].0 == "pontiacgrandprix87"@);
        assert(lex_lt(rows[49].0, rows[50].0));
    } else if k == 50 {
        reveal_strlit("pontiacgrandprix87");
        reveal_strlit("NASCAR Legends Pontiac Grand Prix - 1987");
        assert(rows[50] == ("pontiacgrandprix87"@, "NASCAR Legends Pontiac Grand Prix - 1987"@));
        assert(norm_front(rows[50].1)[0] == 'n');
        assert(rows[50].0[0] == 'p');
        reveal_strlit("porsche718gt4");
        assert(rows[51].0 == "porsche718gt4"@);
        assert(lex_lt(rows[50].0, rows[51].0));
    }
}

#[verifier::spinoff_prover]
#[verifier::rlimit(100)]
proof fn lemma_iracing_rows_51_54(k: int)
    requires
        51 <= k < 54,
    ensures
        row_is_exception(spec_iracing_rows(), k),
{
    let rows = spec_iracing_rows();
    reveal_with_fuel(norm_front, 14);
    reveal_with_fuel(lex_lt, 11);
    if k == 51 {
        reveal_strlit("porsche718gt4");
        reveal_strlit("Porsche 718 Cayman GT4 Clubsport MR");
        assert(rows[51] == ("porsche718gt4"@, "Porsche 718 Cayman GT4 Clubsport MR"@));
        assert(norm_front(rows[51].1)[10] == 'c');
        assert(rows[51].0[10] == 'g');
        reveal_strlit("porsche911cup");
        assert(rows[52].0 == "porsche911cup"@);
        assert(lex_lt(rows[51].0, rows[52].0));
    } else if k == 52 {
        reveal_strlit("porsche911cup");
        reveal_strlit("Porsche 911 GT3 Cup (991)");
        assert(rows[52] == ("porsche911cup"@, "Porsche 911 GT3 Cup (991)"@));
        assert(norm_front(rows[52].1)[10] == 'g');
        assert(rows[52].0[10] == 'c');
        reveal_strlit("porsche991rsr");
        assert(rows[53].0 == "porsche991rsr"@);
        assert(lex_lt(rows[52].0, rows[53].0));
    } else if k == 53 {
        reveal_strlit("porsche991rsr");
        reveal_strlit("Porsche 911 RSR");
        assert(rows[53] == ("porsche991rsr"@, "Porsche 911 RSR"@));
        assert(norm_front(rows[53].1)[8] == '1');
        assert(rows[53].0[8] == '9');
        reveal_strlit("porsche9922cup");
        assert(rows[54].0 == "porsche9922cup"@);
        assert(lex_lt(rows[53].0, rows[54].0));
    }
}

#[verifier::spinoff_prover]
#[verifier::rlimit(100)]
proof fn lemma_iracing_rows_54_57(k: int)
    requires
        54 <= k < 57,
    ensures
        row_is_exception(spec_iracing_rows(), k),
{
    let rows = spec_iracing_rows();
    reveal_with_fuel(norm_front, 11);
    reveal_with_fuel(lex_lt, 12);
    if k == 54 {
        reveal_strlit("porsche9922cup");
        reveal_strlit("Porsche 911 Cup (992.2)");
        assert(rows[54] == ("porsche9922cup"@, "Porsche 911 Cup (992.2)"@));
        assert(norm_front(rows[54].1)[8] == '1');
        assert(rows[54].0[8] == '9');
        reveal_strlit("porsche992rgt3");
        assert(rows[55].0 == "porsche992rgt3"@);
        assert(lex_lt(rows[54].0, rows[55].0));
    } else if k == 55 {
        reveal_strlit("porsche992rgt3");
        reveal_strlit("Porsche 911 GT3 R (992)");
        assert(rows[55] == ("porsche992rgt3"@, "Porsche 911 GT3 R (992)"@));
        assert(norm_front(rows[55].1)[8] == '1');
        assert(rows[55].0[8] == '9');
        reveal_strlit("pro2lite");
        assert(rows[56].0 == "pro2lite"@);
        assert(lex_lt(rows[55].0, rows[56].0));
    } else if k == 56 {
        reveal_strlit("pro2lite");
        reveal_strlit("Lucas Oil Off Road Pro 2 Lite");
        assert(rows[56] == ("pro2lite"@, "Lucas Oil Off Road Pro 2 Lite"@));
        assert(norm_front(rows[56].1)[0] == 'l');
        assert(rows[56].0[0] == 'p');
        reveal_strlit("pro2truck");
        assert(rows[57].0 == "pro2truck"@);
        assert(lex_lt(rows[56].0, rows[57].0));
    }
}

#[verifier::spinoff_prover]
#[verifier::rlimit(100)]
proof fn lemma_iracing_rows_57_60(k: int)
    requires
        57 <= k < 60,
    ensures
        row_is_exception(spec_iracing_rows(), k),
{
    let rows = spec_iracing_rows();
    reveal_with_fuel(norm_front, 6);
    reveal_with_fuel(lex_lt, 5);
    if k == 57 {
        reveal_strlit("pro2truck");
        reveal_strlit("Lucas Oil Off Road Pro 2 Truck");
        assert(rows[57] == ("pro2truck"@, "Lucas Oil Off Road Pro 2 Truck"@));
        assert(norm_front(rows[57].1)[0] == 'l');
        assert(rows[57].0[0] == 'p');
        reveal_strlit("pro4truck");
        assert(rows[58].0 == "pro4truck"@);
        assert(lex_lt(rows[57].0, rows[58].0));
    } else if k == 58 {
        reveal_strlit("pro4truck");
        reveal_strlit("Lucas Oil Off Road Pro 4 Truck");
        assert(rows[58] == ("pro4truck"@, "Lucas Oil Off Road Pro 4 Truck"@));
        assert(norm_front(rows[58].1)[0] == 'l');
        assert(rows[58].0[0] == 'p');
        reveal_strlit("raygr22");
        assert(rows[59].0 == "raygr22"@);
        assert(lex_lt(rows[58].0, rows[59].0));
    } else if k == 59 {
        reveal_strlit("raygr22");
        reveal_strlit("Ray FF1600");
        assert(rows[59] == ("raygr22"@, "Ray FF1600"@));
        assert(norm_front(rows[59].1)[3] == 'f');
        assert(rows[59].0[3] == 'g');
        reveal_strlit("renaultcliocup");
        assert(rows[60].0 == "renaultcliocup"@);
        assert(lex_lt(rows[59].0, rows[60].0));
    }
}

#[verifier::spinoff_prover]
#[verifier::rlimit(100)]
proof fn lemma_iracing_rows_60_63(k: int)
    requires
        60 <= k < 63,
    ensures
        row_is_exception(spec_iracing_rows(), k),
{
    let rows = spec_iracing_rows();
    reveal_with_fuel(norm_front, 14);
    reveal_with_fuel(lex_lt, 3);
    if k == 60 {
        reveal_strlit("renaultcliocup");
        reveal_strlit("Renault Clio");
        assert(rows[60] == ("renaultcliocup"@, "Renault Clio"@));
        assert(norm_front(rows[60].1).len() == 11);
        reveal_strlit("rt2000");
        assert(rows[61].0 == "rt2000"@);
        assert(lex_lt(rows[60].0, rows[61].0));
    } else if k == 61 {
        reveal_strlit("rt2000");
        reveal_strlit("Skip Barber Formula 2000");
        assert(rows[61] == ("rt2000"@, "Skip Barber Formula 2000"@));
        assert(norm_front(rows[61].1)[0] == 's');
        assert(rows[61].0[0] == 'r');
        reveal_strlit("silverado2019");
        assert(rows[62].0 == "silverado2019"@);
        assert(lex_lt(rows[61].0, rows[62].0));
    } else if k == 62 {
        reveal_strlit("silverado2019");
        reveal_strlit("NASCAR Truck Chevrolet Silverado");
        assert(rows[62] == ("silverado2019"@, "NASCAR Truck Chevrolet Silverado"@));
        assert(norm_front(rows[62].1)[0] == 'n');
        assert(rows[62].0[0] == 's');
        reveal_strlit("skmodified");
        assert(rows[63].0 == "skmodified"@);
        assert(lex_lt(rows[62].0, rows[63].0));
    }
}

#[verifier::spinoff_prover]
#[verifier::rlimit(100)]
proof fn lemma_iracing_rows_63_66(k: int)
    requires
        63 <= k < 66,
    ensures
        row_is_exception(spec_iracing_rows(), k),
{
    let rows = spec_iracing_rows();
    reveal_with_fuel(norm_front, 3);
    reveal_with_fuel(lex_lt, 3);
    if k == 63 {
        reveal_strlit("skmodified");
        reveal_strlit("Modified - SK");
        assert(rows[63] == ("skmodified"@, "Modified - SK"@));
        assert(norm_front(rows[63].1)[0] == 'm');
        assert(rows[63].0[0] == 's');
        reveal_strlit("solstice");
        assert(rows[64].0 == "solstice"@);
        assert(lex_lt(rows[63].0, rows[64].0));
    } else if k == 64 {
        reveal_strlit("solstice");
        reveal_strlit("Pontiac Solstice");
        assert(rows[64] == ("solstice"@, "Pontiac Solstice"@));
        assert(norm_front(rows[64].1)[0] == 'p');
        assert(rows[64].0[0] == 's');
        reveal_strlit("specracer");
        assert(rows[65].0 == "specracer"@);
        assert(lex_lt(rows[64].0, rows[65].0));
    } else if k == 65 {
        reveal_strlit("specracer");
        reveal_strlit("SCCA Spec Racer Ford");
        assert(rows[65] == ("specracer"@, "SCCA Spec Racer Ford"@));
        assert(norm_front(rows[65].1)[1] == 'c');
        assert(rows[65].0[1] == 'p');
        reveal_strlit("sr8");
        assert(rows[66].0 == "sr8"@);
        assert(lex_lt(rows[65].0, rows[66].0));
    }
}

#[verifier::spinoff_prover]
#[verifier::rlimit(100)]
proof fn lemma_iracing_rows_66_69(k: int)
    requires
        66 <= k < 69,
    ensures
        row_is_exception(spec_iracing_rows(), k),
{
    let rows = spec_iracing_rows();
    reveal_with_fuel(norm_front, 22);
    reveal_with_fuel(lex_lt, 5);
    if k == 66 {
        reveal_strlit("sr8");
        reveal_strlit("Radical SR8");
        assert(rows[66] == ("sr8"@, "Radical SR8"@));
        assert(norm_front(rows[66].1)[0] == 'r');
        assert(rows[66].0[0] == 's');
        reveal_strlit("superformulalights324");
        assert(rows[67].0 == "superformulalights324"@);
        assert(lex_lt(rows[66].0, rows[67].0));
    } else if k == 67 {
        reveal_strlit("superformulalights324");
        reveal_strlit("Super Formula Lights");
        assert(rows[67] == ("superformulalights324"@, "Super Formula Lights"@));
        assert(norm_front(rows[67].1).len() == 18);
        reveal_strlit("supra2019");
        assert(rows[68].0 == "supra2019"@);
        assert(lex_lt(rows[67].0, rows[68].0));
    } else if k == 68 {
        reveal_strlit("supra2019");
        reveal_strlit("NASCAR Xfinity Toyota Supra");
        assert(rows[68] == ("supra2019"@, "NASCAR Xfinity Toyota Supra"@));
        assert(norm_front(rows[68].1)[0] == 'n');
        assert(rows[68].0[0] == 's');
        reveal_strlit("toyotatundra2022");
        assert(rows[69].0 == "toyotatundra2022"@);
        assert(lex_lt(rows[68].0, rows[69].0));
    }
}

#[verifier::spinoff_prover]
#[verifier::rlimit(100)]
proof fn lemma_iracing_rows_69_71(k: int)
    requires
        69 <= k < 71,
    ensures
        row_is_exception(spec_iracing_rows(), k),
{
    let rows = spec_iracing_rows();
    reveal_with_fuel(norm_front, 6);
    reveal_with_fuel(lex_lt, 2);
    if k == 69 {
        reveal_strlit("toyotatundra2022");
        reveal_strlit("NASCAR Truck Toyota Tundra TRD Pro");
        assert(rows[69] == ("toyotatundra2022"@, "NASCAR Truck Toyota Tundra TRD Pro"@));
        assert(norm_front(rows[69].1)[0] == 'n');
        assert(rows[69].0[0] == 't');
        reveal_strlit("usf17");
        assert(rows[70].0 == "usf17"@);
        assert(lex_lt(rows[69].0, rows[70].0));
    } else if k == 70 {
        reveal_strlit("usf17");
        reveal_strlit("USF 2000");
        assert(rows[70] == ("usf17"@, "USF 2000"@));
        assert(norm_front(rows[70].1)[3] == '2');
        assert(rows[70].0[3] == '1');
    }
}

proof fn lemma_iracing_row(k: int)
    requires
        0 <= k < spec_iracing_rows().len(),
    ensures
        row_is_exception(spec_iracing_rows(), k),
{
    assert(spec_iracing_rows().len() == 71);
    if k < 3 {
        lemma_iracing_rows_0_3(k);
    } else if k < 6 {
        lemma_iracing_rows_3_6(k);
    } else if k < 9 {
        lemma_iracing_rows_6_9(k);
    } else if k < 12 {
        lemma_iracing_rows_9_12(k);
    } else if k < 15 {
        lemma_iracing_rows_12_15(k);
    } else if k < 18 {
        lemma_iracing_rows_15_18(k);
    } else if k < 21 {
        lemma_iracing_rows_18_21(k);
    } else if k < 24 {
        lemma_iracing_rows_21_24(k);
    } else if k < 27 {
        lemma_iracing_rows_24_27(k);
    } else if k < 30 {
        lemma_iracing_rows_27_30(k);
    } else if k < 33 {
        lemma_iracing_rows_30_33(k);
    } else if k < 36 {
        lemma_iracing_rows_33_36(k);
    } else if k < 39 {
        lemma_iracing_rows_36_39(k);
    } else if k < 42 {
        lemma_iracing_rows_39_42(k);
    } else if k < 45 {
        lemma_iracing_rows_42_45(k);
    } else if k < 48 {
        lemma_iracing_rows_45_48(k);
    } else if k < 51 {
        lemma_iracing_rows_48_51(k);
    } else if k < 54 {
        lemma_iracing_rows_51_54(k);
    } else if k < 57 {
        lemma_iracing_rows_54_57(k);
    } else if k < 60 {
        lemma_iracing_rows_57_60(k);
    } else if k < 63 {
        lemma_iracing_rows_60_63(k);
    } else if k < 66 {
        lemma_iracing_rows_63_66(k);
    } else if k < 69 {
        lemma_iracing_rows_66_69(k);
    } else {
        lemma_iracing_rows_69_71(k);
    }
}

/// The alias table holds exceptions only, each one reachable and none
/// shadowed: every folder key is already normalized (a key that is not
/// could never be looked up), no row's name normalizes to its own key (such
/// a row would be redundant), and no two rows share a key, so the
/// first-match lookup does not depend on the order of the rows.
pub proof fn law_alias_table_is_exceptions_only(sim: Sim)
    ensures
        forall|i: int|
            0 <= i < spec_alias_rows(sim).len() ==> normalized((#[trigger] spec_alias_rows(sim)[i]).0)
                == spec_alias_rows(sim)[i].0,
        forall|i: int|
            0 <= i < spec_alias_rows(sim).len() ==> normalized((#[trigger] spec_alias_rows(sim)[i]).1)
                != spec_alias_rows(sim)[i].0,
        forall|i: int, j: int|
            0 <= i < j < spec_alias_rows(sim).len() ==> (#[trigger] spec_alias_rows(sim)[i]).0 != (
            #[trigger] spec_alias_rows(sim)[j]).0,
{
    let rows = spec_alias_rows(sim);
    if sim == Sim::IRacing {
        assert forall|k: int| 0 <= k < rows.len() - 1 implies lex_lt(#[trigger] rows[k].0, rows[k + 1].0) by {
            lemma_iracing_row(k);
        }
        assert forall|i: int| 0 <= i < rows.len() implies normalized((#[trigger] rows[i]).0) == rows[i].0 by {
            lemma_iracing_row(i);
            lemma_folder_key_is_normalized(rows[i].0);
        }
        assert forall|i: int| 0 <= i < rows.len() implies normalized((#[trigger] rows[i]).1) != rows[i].0 by {
            lemma_iracing_row(i);
            lemma_norm_front_is_normalized(rows[i].1);
        }
        assert forall|i: int, j: int| 0 <= i < j < rows.len() implies (#[trigger] rows[i]).0 != (
        #[trigger] rows[j]).0 by {
            lemma_keys_ascend(rows, i, j);
            if rows[i].0 == rows[j].0 {
                lemma_lex_irreflexive(rows[i].0);
            }
        }
    } else {
        assert(rows.len() == 0);
    }
}

} // verus!
