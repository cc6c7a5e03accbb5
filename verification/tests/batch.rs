use ner_pipeline::{pad_batch, Error, ErrorKind, PaddedBatch, PAD_ID};

fn padded(rows: Vec<Vec<i64>>) -> PaddedBatch {
    match pad_batch(&rows) {
        Ok(batch) => batch,
        Err(e) => panic!("padding failed: {:?}", e),
    }
}

#[test]
fn pad_id_is_zero() {
    assert_eq!(PAD_ID, 0);
}

#[test]
fn pad_batch_pads_shorter_rows_on_the_right() {
    let batch = padded(vec![vec![101, 7, 102], vec![101, 102]]);
    assert_eq!(batch.to_rows(), vec![vec![101, 7, 102], vec![101, 102, 0]]);
}

#[test]
fn pad_batch_makes_every_row_as_long_as_the_longest() {
    let rows = vec![vec![1], vec![1, 2, 3, 4, 5], vec![], vec![1, 2]];
    let batch = padded(rows.clone());
    assert_eq!(batch.height(), 4);
    assert_eq!(batch.width(), 5);
    let out = batch.to_rows();
    for (row, source) in out.iter().zip(rows.iter()) {
        assert_eq!(row.len(), 5);
        assert_eq!(&row[..source.len()], &source[..]);
        assert!(row[source.len()..].iter().all(|&id| id == PAD_ID));
    }
}

#[test]
fn pad_batch_keeps_rows_of_equal_length() {
    let rows = vec![vec![4, 5, 6], vec![7, 8, 9]];
    assert_eq!(padded(rows.clone()).to_rows(), rows);
}

#[test]
fn pad_batch_keeps_a_single_row() {
    let batch = padded(vec![vec![2, 9, 3]]);
    assert_eq!(batch.height(), 1);
    assert_eq!(batch.width(), 3);
    assert_eq!(batch.to_rows(), vec![vec![2, 9, 3]]);
}

#[test]
fn pad_batch_keeps_zeros_inside_a_row() {
    let batch = padded(vec![vec![0, 5], vec![5, 0, 0, 7]]);
    assert_eq!(batch.to_rows(), vec![vec![0, 5, 0, 0], vec![5, 0, 0, 7]]);
}

#[test]
fn pad_batch_refuses_a_batch_without_rows() {
    let rows: Vec<Vec<i64>> = Vec::new();
    assert!(matches!(pad_batch(&rows), Err(Error::EmptyBatch)));
}

#[test]
fn pad_batch_refuses_a_batch_of_empty_rows() {
    let rows: Vec<Vec<i64>> = vec![vec![], vec![]];
    assert!(matches!(pad_batch(&rows), Err(Error::EmptyRows)));
}

#[test]
fn padded_batch_get_reads_cells_and_stops_at_the_edge() {
    let batch = padded(vec![vec![101, 7, 102], vec![101, 102]]);
    assert_eq!(batch.get(0, 1), Some(7));
    assert_eq!(batch.get(1, 1), Some(102));
    assert_eq!(batch.get(1, 2), Some(0));
    assert_eq!(batch.get(1, 3), None);
    assert_eq!(batch.get(2, 0), None);
}

#[test]
fn error_kinds_follow_the_taxonomy() {
    assert_eq!(Error::MalformedVocabulary.kind(), ErrorKind::ResourceLoad);
    assert_eq!(Error::MissingLabelMapping.kind(), ErrorKind::Configuration);
    assert_eq!(Error::UnmappedLabel { label_id: 5 }.kind(), ErrorKind::Configuration);
    assert_eq!(Error::EmptyBatch.kind(), ErrorKind::Input);
    assert_eq!(Error::EmptyRows.kind(), ErrorKind::Input);
    assert_eq!(Error::MalformedScores.kind(), ErrorKind::Input);
    assert_eq!(Error::ShapeMismatch.kind(), ErrorKind::Input);
}
