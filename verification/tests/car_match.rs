use pf_core::car_match::{best_match, edit_distance, exact_match, is_subsequence, pick};

fn known(names: &[&str]) -> Vec<String> {
    names.iter().map(|n| (*n).to_string()).collect()
}

#[test]
fn abbreviated_folder_ids_find_their_car() {
    let cars = known(&[
        "Mercedes-AMG W13 E Performance",
        "Mercedes-AMG W14 E Performance",
        "Ferrari 296 GT3",
    ]);
    assert_eq!(
        best_match("mercedesw13", &cars),
        Some("Mercedes-AMG W13 E Performance")
    );
    assert_eq!(
        best_match("mercedesw14", &cars),
        Some("Mercedes-AMG W14 E Performance")
    );

    let cars = known(&["Honda Civic Type R TCR", "Super Formula Lights"]);
    assert_eq!(
        best_match("hondacivictyper", &cars),
        Some("Honda Civic Type R TCR")
    );
    assert_eq!(
        best_match("superformulalights324", &cars),
        Some("Super Formula Lights")
    );

    let cars = known(&["Audi R8 LMS GT3", "Audi RS3 LMS TCR"]);
    assert_eq!(best_match("audir8gt3", &cars), Some("Audi R8 LMS GT3"));

    let cars = known(&["Dallara IR-05", "Dallara IL-15 (INDY NXT)"]);
    assert_eq!(best_match("dallara", &cars), Some("Dallara IR-05"));
}

#[test]
fn exact_and_normalized_matches_return_the_sites_spelling() {
    let cars = known(&["Ferrari 296 GT3", "Porsche 963 GTP"]);
    assert_eq!(best_match("ferrari296gt3", &cars), Some("Ferrari 296 GT3"));
    assert_eq!(best_match("Ferrari 296 GT3", &cars), Some("Ferrari 296 GT3"));
}

#[test]
fn ambiguity_declines_rather_than_guessing() {
    let cars = known(&[
        "Ruf RT 12R Track",
        "Ruf RT 12R AWD",
        "Ruf RT 12R RWD",
        "Ruf RT 12R C-Spec",
    ]);
    assert_eq!(best_match("rufrt12r", &cars), None);
    assert_eq!(best_match("rufrt12rwd", &cars), None);
}

#[test]
fn short_and_unrelated_ids_are_left_alone() {
    let cars = known(&[
        "Chevrolet Corvette C6.R GT1",
        "NASCAR Xfinity Ford Mustang",
        "Global Mazda MX-5 Cup",
        "BMW M Hybrid V8",
    ]);
    assert_eq!(best_match("usf17", &cars), None);
    assert_eq!(best_match("mustang2019", &cars), None);
    assert_eq!(best_match("bmwlmdh", &cars), None);
    assert_eq!(best_match("mx52016", &cars), None);
    assert_eq!(best_match("", &cars), None);
    assert_eq!(best_match("ferrari296gt3", &[]), None);
}

#[test]
fn exact_match_tracks_the_live_list() {
    let cars = known(&["Ferrari 296 GT3"]);
    assert_eq!(exact_match("Ferrari 296 GT3", &cars), Some("Ferrari 296 GT3"));
    assert_eq!(exact_match("ferrari296gt3", &cars), Some("Ferrari 296 GT3"));
    assert_eq!(exact_match("Ferrari 488 GT3 Evo 2020", &cars), None);
    assert_eq!(exact_match("", &cars), None);
}

#[test]
fn edit_distance_is_symmetric_and_bounded() {
    assert_eq!(edit_distance("", "abc"), 3);
    assert_eq!(edit_distance("abc", "abc"), 0);
    assert_eq!(edit_distance("kitten", "sitting"), 3);
    assert_eq!(edit_distance("sitting", "kitten"), 3);
}

#[test]
fn subsequence_respects_order() {
    assert!(is_subsequence("abc", "axbxc"));
    assert!(!is_subsequence("cba", "axbxc"));
    assert!(is_subsequence("", "anything"));
    assert!(!is_subsequence("abcd", "abc"));
}

#[test]
fn pick_takes_the_unique_lowest_score_only() {
    assert_eq!(pick(&vec![Some(3), None, Some(1), Some(2)]), Some(2));
    assert_eq!(pick(&vec![Some(1), Some(1)]), None);
    assert_eq!(pick(&vec![None, None]), None);
    assert_eq!(pick(&vec![]), None);
    assert_eq!(pick(&vec![Some(1), Some(1), Some(0)]), Some(2));
}

#[test]
fn edit_distance_tier_settles_a_drifted_name() {
    // No containment and no subsequence; one substitution within a budget of
    // one edit for a seven-letter id.
    let cars = known(&["Porsche 718 Cayman", "Ferrbri"]);
    assert_eq!(best_match("ferrari", &cars), Some("Ferrbri"));
}

#[test]
fn law_fixed_point_on_a_concrete_list() {
    let cars = known(&["Ferrari 296 GT3", "ferrari-296-gt3", "Porsche 963 GTP"]);
    // The first name that normalizes alike wins, for either spelling.
    assert_eq!(best_match("ferrari-296-gt3", &cars), Some("Ferrari 296 GT3"));
    assert_eq!(best_match("Porsche 963 GTP", &cars), Some("Porsche 963 GTP"));
}

#[test]
fn the_answer_does_not_depend_on_list_order() {
    let names = [
        "Mercedes-AMG W13 E Performance",
        "Mercedes-AMG W14 E Performance",
        "Ferrari 296 GT3",
        "Audi R8 LMS GT3",
        "Dallara IR-05",
    ];
    let forward = known(&names);
    let mut reversed = forward.clone();
    reversed.reverse();
    for c in ["mercedesw13", "ferrari296", "audir8gt3", "dallara", "gt3", "nothingatall"] {
        assert_eq!(best_match(c, &forward), best_match(c, &reversed), "{c}");
    }
}

#[test]
fn a_blank_candidate_matches_nothing() {
    let cars = known(&["Ferrari 296 GT3", "--"]);
    assert_eq!(best_match("", &cars), None);
    assert_eq!(best_match(" - _ ", &cars), None);
}
