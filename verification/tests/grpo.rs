use ferrl::binary64::Real64;
use ferrl::grpo::{
    active_cells, check_sequence_rows, is_nonneg_mask, select_rewards, settle_advantages,
    validate_masked_inputs, zero_mask_rows, ImportanceSamplingLevel, LossType, MaskedBatchFault,
    ScaleRewards, SequenceFault,
};

fn double(value: f64) -> Real64 {
    Real64 { bits: value.to_bits() }
}

fn row(values: &[f64]) -> Vec<Real64> {
    values.iter().map(|value| double(*value)).collect()
}

/// Accepts a batch or panics with what is wrong with it.
fn accept(values: &[&[f64]], mask: &[&[f64]]) -> (usize, usize) {
    let widths = values.iter().map(|values| values.len()).collect();
    let mask = mask.iter().map(|weights| row(weights)).collect();
    match validate_masked_inputs(&widths, &mask) {
        Ok(shape) => shape,
        Err(fault) => panic!("{}", fault.message()),
    }
}

#[test]
fn loss_type_default_is_dapo() {
    assert_eq!(LossType::default(), LossType::Dapo);
    assert_eq!(ScaleRewards::default(), ScaleRewards::Group);
    assert_eq!(ImportanceSamplingLevel::default(), ImportanceSamplingLevel::Token);
}

#[test]
fn accepted_batches_give_their_shape() {
    assert_eq!(accept(&[&[1.0, 2.0, 3.0], &[4.0, 5.0, 0.0]], &[&[1.0; 3], &[1.0, 1.0, 0.0]]), (2, 3));
    assert_eq!(accept(&[&[f64::NAN]], &[&[-0.0]]), (1, 1));
}

#[test]
#[should_panic(expected = "zero-width rows")]
fn masked_mean_zero_width_batch_panics() {
    accept(&[&[]], &[&[]]);
}

#[test]
#[should_panic(expected = "finite and non-negative")]
fn masked_mean_rejects_negative_mask() {
    accept(&[&[1.0, 2.0]], &[&[1.0, -1.0]]);
}

#[test]
#[should_panic(expected = "row count mismatch")]
fn masked_mean_shape_mismatch_panics() {
    accept(&[&[1.0, 2.0]], &[&[1.0, 1.0], &[1.0, 1.0]]);
}

#[test]
#[should_panic(expected = "ragged")]
fn masked_mean_ragged_row_panics() {
    accept(&[&[1.0], &[100.0, 100.0]], &[&[1.0], &[1.0, 1.0]]);
}

#[test]
fn each_broken_batch_has_its_fault() {
    let fault = |widths: &[usize], mask: &[&[f64]]| {
        let mask = mask.iter().map(|weights| row(weights)).collect();
        validate_masked_inputs(&widths.to_vec(), &mask).unwrap_err()
    };
    assert_eq!(fault(&[], &[]), MaskedBatchFault::EmptyBatch);
    assert_eq!(fault(&[1], &[]), MaskedBatchFault::RowCount);
    assert_eq!(fault(&[0], &[&[]]), MaskedBatchFault::ZeroWidth);
    assert_eq!(fault(&[1, 2], &[&[1.0], &[1.0]]), MaskedBatchFault::RaggedValues);
    assert_eq!(fault(&[1], &[&[1.0, 1.0]]), MaskedBatchFault::RaggedMask);
    assert_eq!(fault(&[1], &[&[f64::INFINITY]]), MaskedBatchFault::MaskWeight);
    assert!(!is_nonneg_mask(&row(&[f64::NAN])));
    assert!(is_nonneg_mask(&row(&[0.0, 0.5, 1e300])));
}

#[test]
fn zero_mask_rows_counts_all_pad_sequences() {
    let mask = [[1.0, 0.0], [0.0, 0.0], [0.0, 0.0]];
    let sums: Vec<Real64> = mask.iter().map(|row| double(row.iter().sum::<f64>())).collect();
    assert_eq!(zero_mask_rows(&sums), 2);
    assert_eq!(zero_mask_rows(&row(&[-1.0, f64::NAN, f64::INFINITY, -0.0, 1e-300])), 2);
}

#[test]
fn only_cells_that_count_are_read() {
    // Only the cells that count are ever read.
    let values = [[1.0, f64::NAN], [5.0, f64::INFINITY]];
    let mask = [[1.0, 0.0], [1.0, 0.0]];
    let mut total = 0.0;
    for (values, weights) in values.iter().zip(mask) {
        for cell in active_cells(&row(&weights)) {
            total += values[cell] * weights[cell];
        }
    }
    assert_eq!(total, 6.0);
    assert_eq!(active_cells(&row(&[0.0, 2.0, -1.0, f64::NAN, 0.5])), [1, 4]);
}

#[test]
fn rewards_that_are_not_finite_are_set_aside() {
    let finite = select_rewards(&row(&[1.0, f64::NAN, 3.0, f64::INFINITY])).unwrap();
    assert_eq!(finite, row(&[1.0, 3.0]));
    assert_eq!(select_rewards(&row(&[f64::NAN, f64::NAN])).unwrap(), []);
    assert_eq!(
        settle_advantages(&row(&[-1.0, f64::NAN, 1.0, f64::NEG_INFINITY])),
        row(&[-1.0, 0.0, 1.0, 0.0])
    );
}

#[test]
#[should_panic(expected = "empty reward group")]
fn advantages_empty_panics() {
    if let Err(empty) = select_rewards(&Vec::new()) {
        panic!("{}", empty.message());
    }
}

#[test]
#[should_panic(expected = "length mismatch")]
fn sequence_log_ratio_rejects_ragged_inputs() {
    if let Err(fault) = check_sequence_rows(2, 1, &row(&[1.0, 1.0])) {
        panic!("{}", fault.message());
    }
}

#[test]
fn sequence_rows_are_checked_in_order() {
    assert_eq!(check_sequence_rows(2, 2, &row(&[1.0])), Err(SequenceFault::MaskLength));
    assert_eq!(check_sequence_rows(1, 1, &row(&[-1.0])), Err(SequenceFault::MaskWeight));
    assert_eq!(check_sequence_rows(1, 1, &row(&[1.0])), Ok(()));
}
