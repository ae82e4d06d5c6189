use abbreviation_lookup::batch::{successes, tally, Failure};
use abbreviation_lookup::dedup::DedupTracker;
use abbreviation_lookup::pipeline::{
    claim_record, lookup_from_page, record_from_page, sample_from_lookup, sample_from_page,
};
use abbreviation_lookup::record::Data;
use rand::rngs::StdRng;
use rand::SeedableRng;

const ENTRY: &str = "<html><head><title>AB - Alpha Beta (Greek) | AcronymFinder</title></head>\
<body><div class=\"samples-list\"><article><div class=\"samples-list__item__content\">The Alpha Beta rules (sic)</div></article></div></body></html>";

const RESULTS: &str = "<html><body><div class=\"tab-content\"><table><tbody>\
<tr><td class=\"result-list__body__meaning\">Gamma</td></tr>\
<tr><td class=\"result-list__body__meaning\"><a href=\"/ab\">Alpha Beta</a></td></tr>\
<tr><td class=\"result-list__body__meaning\">Delta</td></tr>\
</tbody></table></div></body></html>";

fn record(text: &str, abbr: &str, definition: &str) -> Data {
    Data { text: text.to_string(), abbr: abbr.to_string(), definition: definition.to_string() }
}

fn insufficient(abbreviation: &str, found: usize) -> Failure {
    Failure::InsufficientAnswers { abbreviation: abbreviation.to_string(), found }
}

#[test]
fn granted_claim_gives_the_address_to_ask() {
    let mut tracker = DedupTracker::new();
    let data = record("t", "NASA", "d");
    assert_eq!(
        claim_record(&mut tracker, &data),
        Ok("https://www.acronymfinder.com/NASA.html".to_string())
    );
    assert!(tracker.contains("NASA"));
}

#[test]
fn repeated_record_is_a_duplicate() {
    let mut tracker = DedupTracker::new();
    let data = record("t", "NASA", "d");
    let other = record("another sentence", "NASA", "another definition");
    assert!(claim_record(&mut tracker, &data).is_ok());
    assert_eq!(claim_record(&mut tracker, &data), Err(Failure::Duplicate));
    assert_eq!(claim_record(&mut tracker, &other), Err(Failure::Duplicate));
    assert_eq!(tracker.len(), 1);
}

#[test]
fn entry_page_gives_its_record() {
    let data = record_from_page(Some(ENTRY)).unwrap();
    assert_eq!(data.abbr, "AB");
    assert_eq!(data.definition, "Alpha Beta");
    assert_eq!(data.text, "The Alpha Beta rules");
}

#[test]
fn entry_page_that_did_not_come_is_a_transport_failure() {
    assert_eq!(record_from_page(None).unwrap_err(), Failure::Transport);
}

#[test]
fn entry_page_without_record_is_malformed() {
    assert_eq!(
        record_from_page(Some("<html><head><title>Oops</title></head></html>")).unwrap_err(),
        Failure::MalformedDocument
    );
}

#[test]
fn result_page_gives_the_lookup() {
    assert_eq!(
        lookup_from_page(Some(RESULTS)),
        Ok(vec!["Gamma".to_string(), "Alpha Beta".to_string(), "Delta".to_string()])
    );
    assert_eq!(lookup_from_page(None), Err(Failure::Transport));
    assert_eq!(
        lookup_from_page(Some(
            "<div class=\"tab-content\"><table><tbody><tr><td class=\"result-list__body__meaning\"></td></tr></tbody></table></div>"
        )),
        Err(Failure::MalformedDocument)
    );
}

#[test]
fn failed_lookup_is_passed_on() {
    let data = record("t", "AB", "d");
    let mut rng = StdRng::seed_from_u64(0);
    assert_eq!(
        sample_from_lookup(&data, Err(Failure::Transport), 2, &mut rng),
        Err(Failure::Transport)
    );
    assert_eq!(
        sample_from_lookup(&data, Err(Failure::MalformedDocument), 2, &mut rng),
        Err(Failure::MalformedDocument)
    );
}

#[test]
fn short_lookup_fails_with_abbreviation_and_count() {
    let data = record("t", "AB", "d");
    let mut rng = StdRng::seed_from_u64(0);
    let fetched = vec!["one".to_string(), "two".to_string()];
    assert_eq!(sample_from_lookup(&data, Ok(fetched), 4, &mut rng), Err(insufficient("AB", 2)));
    assert_eq!(sample_from_lookup(&data, Ok(vec![]), 1, &mut rng), Err(insufficient("AB", 0)));
}

#[test]
fn result_page_gives_the_masked_sample() {
    let data = record("The Alpha Beta rules", "AB", "Alpha Beta");
    let mut rng = StdRng::seed_from_u64(11);
    let sample = sample_from_page(&data, Some(RESULTS), 3, &mut rng).unwrap();
    assert_eq!(sample.text, "the [AB] rules");
    assert_eq!(sample.answers[sample.correct_answer_idx], "alpha beta");
    let mut answers = sample.answers.clone();
    answers.sort();
    assert_eq!(answers, vec!["alpha beta", "delta", "gamma"]);
}

#[test]
fn result_page_with_too_few_definitions_fails() {
    let data = record("The Alpha Beta rules", "AB", "Alpha Beta");
    let mut rng = StdRng::seed_from_u64(11);
    assert_eq!(sample_from_page(&data, Some(RESULTS), 4, &mut rng), Err(insufficient("AB", 3)));
    assert_eq!(sample_from_page(&data, None, 4, &mut rng), Err(Failure::Transport));
}

#[test]
fn batch_goes_on_behind_a_failed_item() {
    let records = vec![
        record("The Alpha Beta rules", "AB", "Alpha Beta"),
        record("short of answers", "CD", "Gamma"),
        record("Alpha Beta again", "AB", "Alpha Beta"),
        record("Delta wins", "EF", "Delta"),
    ];
    let short = "<div class=\"tab-content\"><table><tbody><tr><td class=\"result-list__body__meaning\">Gamma</td></tr></tbody></table></div>";
    let mut tracker = DedupTracker::new();
    let mut rng = StdRng::seed_from_u64(2);
    let mut outcomes = Vec::new();
    for data in &records {
        let outcome = match claim_record(&mut tracker, data) {
            Ok(_) => {
                let page = if data.abbr == "CD" { short } else { RESULTS };
                sample_from_page(data, Some(page), 3, &mut rng)
            }
            Err(failure) => Err(failure),
        };
        outcomes.push(outcome);
    }
    assert_eq!(outcomes[1], Err(insufficient("CD", 1)));
    assert_eq!(outcomes[2], Err(Failure::Duplicate));
    let counts = tally(&outcomes);
    assert_eq!(counts.attempted, 4);
    assert_eq!(counts.succeeded, 2);
    assert_eq!(counts.insufficient, 1);
    assert_eq!(counts.duplicate, 1);
    let samples = successes(outcomes);
    assert_eq!(samples.len(), 2);
    assert_eq!(samples[0].text, "the [AB] rules");
    assert_eq!(samples[1].text, "[EF] wins");
}
