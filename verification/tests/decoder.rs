use std::collections::HashMap;

use ner_pipeline::{
    decode_labels, label_ids, name_labels, select_labels, Error, ErrorKind, Prediction,
    ScoreTensor, TokenLabel, NON_ENTITY,
};

fn bits(values: &[f64]) -> Vec<u64> {
    values.iter().map(|v| v.to_bits()).collect()
}

fn tensor(cells: Vec<Vec<Vec<f64>>>) -> ScoreTensor {
    let cells = cells.iter().map(|row| row.iter().map(|cell| bits(cell)).collect()).collect();
    match ScoreTensor::new(cells) {
        Ok(scores) => scores,
        Err(e) => panic!("no score tensor: {:?}", e),
    }
}

fn mapping(names: &[(i64, &str)]) -> HashMap<i64, String> {
    names.iter().map(|(id, name)| (*id, name.to_string())).collect()
}

fn sample() -> ScoreTensor {
    tensor(vec![
        vec![vec![0.1, 0.1, 0.8], vec![0.9, 0.05, 0.05], vec![0.2, 0.7, 0.1]],
        vec![vec![0.6, 0.3, 0.1], vec![0.3, 0.3, 0.4], vec![0.1, 0.45, 0.45]],
    ])
}

#[test]
fn non_entity_is_label_zero() {
    assert_eq!(NON_ENTITY, 0);
}

#[test]
fn select_labels_keeps_the_positions_that_are_entities() {
    let found = select_labels(&sample());
    assert_eq!(
        found,
        vec![
            Prediction { batch_index: 0, position_index: 0, label_id: 2, score: 0.8f64.to_bits() },
            Prediction { batch_index: 0, position_index: 2, label_id: 1, score: 0.7f64.to_bits() },
            Prediction { batch_index: 1, position_index: 1, label_id: 2, score: 0.4f64.to_bits() },
            Prediction { batch_index: 1, position_index: 2, label_id: 1, score: 0.45f64.to_bits() },
        ]
    );
}

#[test]
fn select_labels_never_keeps_the_non_entity_label() {
    let found = select_labels(&sample());
    assert!(found.iter().all(|p| p.label_id != NON_ENTITY));
}

#[test]
fn select_labels_goes_text_by_text_and_left_to_right() {
    let found = select_labels(&sample());
    for pair in found.windows(2) {
        let earlier = (pair[0].batch_index, pair[0].position_index);
        let later = (pair[1].batch_index, pair[1].position_index);
        assert!(earlier < later);
    }
}

#[test]
fn select_labels_drops_a_tie_that_the_non_entity_label_wins() {
    let scores = tensor(vec![vec![vec![0.5, 0.5], vec![0.4, 0.6]]]);
    assert_eq!(
        select_labels(&scores),
        vec![Prediction { batch_index: 0, position_index: 1, label_id: 1, score: 0.6f64.to_bits() }]
    );
}

#[test]
fn select_labels_of_a_batch_without_entities_is_empty() {
    let scores = tensor(vec![vec![vec![0.9, 0.1], vec![0.8, 0.2]], vec![vec![1.0, 0.0], vec![0.5, 0.5]]]);
    assert!(select_labels(&scores).is_empty());
}

#[test]
fn name_labels_pairs_each_prediction_with_its_name() {
    let found = select_labels(&sample());
    let tags = name_labels(&found, &mapping(&[(0, "O"), (1, "I-PER"), (2, "I-LOC")])).unwrap();
    assert_eq!(tags.len(), 4);
    let labels: Vec<&str> = tags.iter().map(|t| t.label.as_str()).collect();
    assert_eq!(labels, vec!["I-LOC", "I-PER", "I-LOC", "I-PER"]);
    for (tag, prediction) in tags.iter().zip(found.iter()) {
        assert_eq!(tag.prediction, *prediction);
    }
}

#[test]
fn name_labels_reports_the_first_label_without_a_name() {
    let found = vec![
        Prediction { batch_index: 0, position_index: 0, label_id: 1, score: 0.8f64.to_bits() },
        Prediction { batch_index: 0, position_index: 1, label_id: 7, score: 0.7f64.to_bits() },
        Prediction { batch_index: 1, position_index: 0, label_id: 5, score: 0.9f64.to_bits() },
    ];
    let outcome = name_labels(&found, &mapping(&[(0, "O"), (1, "I-PER")]));
    assert_eq!(outcome, Err(Error::UnmappedLabel { label_id: 7 }));
}

#[test]
fn name_labels_of_nothing_is_nothing() {
    let tags = name_labels(&Vec::new(), &HashMap::new()).unwrap();
    assert!(tags.is_empty());
}

#[test]
fn decode_labels_selects_and_names() {
    let tags = decode_labels(&sample(), &mapping(&[(1, "I-PER"), (2, "I-LOC")])).unwrap();
    assert_eq!(
        tags[0],
        TokenLabel {
            prediction: Prediction {
                batch_index: 0,
                position_index: 0,
                label_id: 2,
                score: 0.8f64.to_bits(),
            },
            label: "I-LOC".to_string(),
        }
    );
    assert_eq!(tags.len(), 4);
}

#[test]
fn decode_labels_needs_no_name_for_the_non_entity_label() {
    let scores = tensor(vec![vec![vec![0.9, 0.1], vec![0.2, 0.8]]]);
    let tags = decode_labels(&scores, &mapping(&[(1, "I-PER")])).unwrap();
    assert_eq!(tags.len(), 1);
    assert_eq!(tags[0].label, "I-PER");
}

#[test]
fn decode_labels_fails_on_a_label_the_mapping_lacks() {
    let mut cell = vec![0.0; 9];
    cell[5] = 1.0;
    let scores = tensor(vec![vec![cell]]);
    let names = mapping(&[(0, "O"), (1, "B-MISC"), (2, "I-MISC"), (3, "B-PER"), (4, "I-PER")]);
    match decode_labels(&scores, &names) {
        Err(e) => {
            assert_eq!(e, Error::UnmappedLabel { label_id: 5 });
            assert_eq!(e.kind(), ErrorKind::Configuration);
        }
        Ok(tags) => panic!("decoded {:?}", tags),
    }
}

#[test]
fn label_ids_lists_the_mapping_in_ascending_order() {
    let names = mapping(&[(7, "B-LOC"), (0, "O"), (-3, "X"), (4, "I-PER"), (1, "B-MISC")]);
    assert_eq!(label_ids(&names), vec![-3, 0, 1, 4, 7]);
}

#[test]
fn label_ids_of_an_empty_mapping_is_empty() {
    assert!(label_ids(&HashMap::new()).is_empty());
}
