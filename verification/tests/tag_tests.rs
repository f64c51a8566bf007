use toponn::{ModelPerformance, Numberer, Tag, Token, ToponnError};

fn field_table() -> Numberer {
    let mut table = Numberer::new();
    for label in ["VF", "MF", "NF", "LK"].iter() {
        table.number(&String::from(*label));
    }
    table
}

#[test]
fn two_of_three_matches_score_two_thirds() {
    let table = field_table();
    let mut perf = ModelPerformance::new();
    let gold: Vec<usize> = vec![0, 1, 2];
    let predicted: Vec<usize> = vec![0, 1, 3];
    perf.add_sentence(&gold, &predicted, &table).unwrap();
    assert_eq!(perf.correct(), 2);
    assert_eq!(perf.total(), 3);
    let accuracy = perf.correct() as f64 / perf.total() as f64;
    assert!((accuracy - 2.0 / 3.0).abs() < 1e-12);
}

#[test]
fn out_of_range_prediction_is_a_vocabulary_mismatch() {
    let table = field_table();
    let mut perf = ModelPerformance::new();
    let gold: Vec<usize> = vec![0, 1, 2];
    let predicted: Vec<usize> = vec![0, 4, 2];
    let err = perf.add_sentence(&gold, &predicted, &table).unwrap_err();
    assert_eq!(err, ToponnError::InconsistentVocabulary { id: 4 });
    assert_eq!(perf.correct(), 0);
    assert_eq!(perf.total(), 0);
}

#[test]
fn out_of_range_gold_is_reported_before_the_prediction() {
    let table = field_table();
    let mut perf = ModelPerformance::new();
    let gold: Vec<usize> = vec![9];
    let predicted: Vec<usize> = vec![7];
    let err = perf.add_sentence(&gold, &predicted, &table).unwrap_err();
    assert_eq!(err, ToponnError::InconsistentVocabulary { id: 9 });
}

#[test]
fn counts_accumulate_across_sentences_and_never_shrink() {
    let table = field_table();
    let mut perf = ModelPerformance::new();
    perf.add_sentence(&vec![0, 1], &vec![0, 1], &table).unwrap();
    assert_eq!((perf.correct(), perf.total()), (2, 2));
    perf.add_sentence(&vec![2, 3], &vec![3, 2], &table).unwrap();
    assert_eq!((perf.correct(), perf.total()), (2, 4));
    perf.add_sentence(&vec![], &vec![], &table).unwrap();
    assert_eq!((perf.correct(), perf.total()), (2, 4));
}

#[test]
fn empty_accumulator_signals_no_data() {
    let perf = ModelPerformance::new();
    assert_eq!(perf.total(), 0);
    assert_eq!(perf.correct(), 0);
}

struct ScriptedTagger {
    script: Vec<usize>,
}

impl Tag for ScriptedTagger {
    fn tag(&self, _sentence: &Vec<Token>) -> Result<Vec<usize>, ToponnError> {
        Ok(self.script.clone())
    }
}

#[test]
fn a_scripted_tagger_can_be_scored() {
    let table = field_table();
    let tagger = ScriptedTagger { script: vec![0, 1, 3] };
    let sentence: Vec<Token> = Vec::new();
    let predicted = tagger.tag(&sentence).unwrap();
    let mut perf = ModelPerformance::new();
    perf.add_sentence(&vec![0, 1, 2], &predicted, &table).unwrap();
    assert_eq!(perf.correct(), 2);
    assert_eq!(perf.total(), 3);
}
