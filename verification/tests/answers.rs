use abbreviation_lookup::answers::{
    answer_set_from, assemble_candidates, build_answer_set, locate_answer, AnswerSet, BuildError,
    NO_ANSWER,
};
use abbreviation_lookup::record::Data;
use rand::rngs::StdRng;
use rand::SeedableRng;

fn strings(items: &[&str]) -> Vec<String> {
    items.iter().map(|item| item.to_string()).collect()
}

fn nasa() -> Data {
    Data {
        text: "Founded by NASA in 1958".to_string(),
        abbr: "NASA".to_string(),
        definition: "National Aeronautics and Space Administration".to_string(),
    }
}

fn sorted(mut items: Vec<String>) -> Vec<String> {
    items.sort();
    items
}

#[test]
fn definition_among_the_first_candidates_is_kept() {
    let fetched = strings(&[
        "orbit agency",
        "space body",
        "national aeronautics and space administration",
        "research group",
        "defense unit",
    ]);
    for seed in 0..16u64 {
        let mut rng = StdRng::seed_from_u64(seed);
        let set = build_answer_set(&nasa(), &fetched, 4, &mut rng).unwrap();
        assert_eq!(set.candidates.len(), 4);
        assert_eq!(
            sorted(set.candidates.clone()),
            strings(&[
                "national aeronautics and space administration",
                "orbit agency",
                "research group",
                "space body",
            ])
        );
        assert!(set.correct_index < 4);
        assert_eq!(
            set.candidates[set.correct_index],
            "national aeronautics and space administration"
        );
        let answers = set
            .candidates
            .iter()
            .filter(|candidate| candidate.eq_ignore_ascii_case(&nasa().definition))
            .count();
        assert_eq!(answers, 1);
    }
}

#[test]
fn too_few_candidates_fail() {
    let fetched = strings(&["orbit agency", "space body"]);
    let mut rng = StdRng::seed_from_u64(1);
    assert_eq!(
        build_answer_set(&nasa(), &fetched, 4, &mut rng),
        Err(BuildError::InsufficientAnswers { abbreviation: "NASA".to_string(), found: 2 })
    );
    assert_eq!(
        build_answer_set(&nasa(), &Vec::new(), 1, &mut rng),
        Err(BuildError::InsufficientAnswers { abbreviation: "NASA".to_string(), found: 0 })
    );
}

#[test]
fn as_many_candidates_as_asked_for_are_enough() {
    let fetched = strings(&["orbit agency", "space body"]);
    let mut rng = StdRng::seed_from_u64(1);
    let set = build_answer_set(&nasa(), &fetched, 2, &mut rng).unwrap();
    assert_eq!(
        sorted(set.candidates.clone()),
        strings(&["national aeronautics and space administration", "orbit agency"])
    );
    assert_eq!(set.candidates[set.correct_index], "national aeronautics and space administration");
}

#[test]
fn missing_definition_takes_the_last_place() {
    let fetched = strings(&["Orbit Agency", "Space Body", "Research Group", "Defense Unit"]);
    assert_eq!(
        assemble_candidates(&fetched, "national aeronautics", 3),
        strings(&["orbit agency", "space body", "national aeronautics"])
    );
    assert_eq!(
        assemble_candidates(&fetched, "national aeronautics", 1),
        strings(&["national aeronautics"])
    );
}

#[test]
fn definition_behind_the_cut_counts_as_missing() {
    let fetched = strings(&["a", "b", "the one", "c"]);
    assert_eq!(assemble_candidates(&fetched, "the one", 2), strings(&["a", "the one"]));
    assert_eq!(assemble_candidates(&fetched, "the one", 3), strings(&["a", "b", "the one"]));
    assert_eq!(assemble_candidates(&fetched, "the one", 4), strings(&["a", "b", "the one", "c"]));
}

#[test]
fn candidates_are_put_in_lower_case() {
    let fetched = strings(&["ÄRZTE Ohne Grenzen", "SPACE Body"]);
    assert_eq!(
        assemble_candidates(&fetched, "space body", 2),
        strings(&["ärzte ohne grenzen", "space body"])
    );
}

#[test]
fn answer_is_located_at_its_first_place() {
    let candidates = strings(&["x", "The One", "the one", "y"]);
    assert_eq!(locate_answer(&candidates, "the one"), 1);
    assert_eq!(locate_answer(&candidates, "THE ONE"), 1);
    assert_eq!(locate_answer(&candidates, "y"), 3);
    assert_eq!(locate_answer(&candidates, "x"), 0);
}

#[test]
fn missing_answer_is_located_nowhere() {
    let candidates = strings(&["x", "the one", "y"]);
    assert_eq!(locate_answer(&candidates, "the other"), NO_ANSWER);
    assert_eq!(locate_answer(&candidates, "the on"), NO_ANSWER);
    assert_eq!(locate_answer(&Vec::new(), "x"), NO_ANSWER);
    assert_eq!(NO_ANSWER, usize::MAX);
}

#[test]
fn only_ascii_letters_are_compared_without_case() {
    let candidates = strings(&["école", "strasse"]);
    assert_eq!(locate_answer(&candidates, "École"), NO_ANSWER);
    assert_eq!(locate_answer(&candidates, "éCOLE"), 0);
    assert_eq!(locate_answer(&candidates, "STRASSE"), 1);
}

#[test]
fn answer_set_keeps_the_given_order() {
    let set = answer_set_from(strings(&["b", "a", "c"]), "c");
    assert_eq!(set, AnswerSet { candidates: strings(&["b", "a", "c"]), correct_index: 2 });
    let none = answer_set_from(strings(&["b", "a"]), "c");
    assert_eq!(none.correct_index, NO_ANSWER);
}

#[test]
fn shuffling_keeps_the_candidates() {
    let fetched = strings(&["a", "b", "c", "d", "e", "f", "g", "h"]);
    let record = Data { text: String::new(), abbr: "X".to_string(), definition: "D".to_string() };
    for seed in 0..32u64 {
        let mut rng = StdRng::seed_from_u64(seed);
        let set = build_answer_set(&record, &fetched, 8, &mut rng).unwrap();
        assert_eq!(sorted(set.candidates.clone()), strings(&["a", "b", "c", "d", "e", "f", "g", "h"]));
        assert_eq!(set.candidates[set.correct_index], "d");
    }
}

#[test]
fn shuffling_changes_the_order() {
    let fetched = strings(&["a", "b", "c", "d", "e", "f", "g", "h"]);
    let record = Data { text: String::new(), abbr: "X".to_string(), definition: "a".to_string() };
    let mut moved = false;
    for seed in 0..32u64 {
        let mut rng = StdRng::seed_from_u64(seed);
        let set = build_answer_set(&record, &fetched, 8, &mut rng).unwrap();
        if set.candidates != fetched {
            moved = true;
        }
    }
    assert!(moved);
}

#[test]
fn same_seed_gives_the_same_answer_set() {
    let fetched = strings(&["a", "b", "c", "d", "e", "f", "g", "h"]);
    let record = Data { text: String::new(), abbr: "X".to_string(), definition: "c".to_string() };
    let first = build_answer_set(&record, &fetched, 6, &mut StdRng::seed_from_u64(7)).unwrap();
    let second = build_answer_set(&record, &fetched, 6, &mut StdRng::seed_from_u64(7)).unwrap();
    assert_eq!(first, second);
}

#[test]
fn duplicate_definitions_are_all_kept() {
    let fetched = strings(&["the one", "The One", "other"]);
    let record = Data { text: String::new(), abbr: "X".to_string(), definition: "the one".to_string() };
    let set = build_answer_set(&record, &fetched, 3, &mut StdRng::seed_from_u64(3)).unwrap();
    assert_eq!(sorted(set.candidates.clone()), strings(&["other", "the one", "the one"]));
    let first = set.candidates.iter().position(|c| c == "the one").unwrap();
    assert_eq!(set.correct_index, first);
}
