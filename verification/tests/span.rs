use eq_common::span::{blob_size, div_ceil, row_span, RowSpan};

#[test]
fn single_row_blob_covers_row_zero() {
    // A blob of one share at offset 1 in a square of side 4.
    let span = row_span(1, 1, 4).unwrap();
    assert_eq!(span, RowSpan { first_row_index: 0, last_row_index: 0 });
}

#[test]
fn three_row_blob() {
    // Five shares from offset 1, two shares to a row of the unextended square.
    let span = row_span(1, 5, 4).unwrap();
    assert_eq!(span.first_row_index, 0);
    assert_eq!(span.last_row_index, 2);
}

#[test]
fn formula_values() {
    // first = ceil(9 / 4) - 1 = 2; offset = 9 - 2 * 2 = 5; last = ceil(8 / 2) - 1 = 3.
    assert_eq!(row_span(9, 3, 4), Some(RowSpan { first_row_index: 2, last_row_index: 3 }));
    // first = ceil(8 / 8) - 1 = 0; offset = 8; last = ceil(9 / 4) - 1 = 2.
    assert_eq!(row_span(8, 1, 8), Some(RowSpan { first_row_index: 0, last_row_index: 2 }));
    // first = ceil(17 / 8) - 1 = 2; offset = 17 - 8 = 9; last = ceil(19 / 4) - 1 = 4.
    assert_eq!(row_span(17, 10, 8), Some(RowSpan { first_row_index: 2, last_row_index: 4 }));
}

#[test]
fn last_row_may_leave_the_square() {
    // Offset 4 in a square of side 2: the last row, 3, is outside.
    assert_eq!(row_span(4, 1, 2), Some(RowSpan { first_row_index: 1, last_row_index: 3 }));
}

#[test]
fn span_is_undefined_for_small_squares_and_offset_zero() {
    assert_eq!(row_span(1, 1, 0), None);
    assert_eq!(row_span(1, 1, 1), None);
    assert_eq!(row_span(0, 1, 4), None);
    assert_eq!(row_span(u64::MAX, u64::MAX, 4), None);
}

#[test]
fn rows_are_ordered_inside_the_square() {
    let eds_size: u64 = 8;
    let ods_size: u64 = 4;
    for blob_index in 1..=eds_size * eds_size {
        for size in 1..=ods_size * ods_size {
            let span = row_span(blob_index, size, eds_size).unwrap();
            assert!(span.first_row_index <= span.last_row_index);
            assert!(span.first_row_index < eds_size);
            let offset = blob_index - span.first_row_index * ods_size;
            assert_eq!(span.last_row_index < eds_size, offset + size <= eds_size * ods_size);
        }
    }
}

#[test]
fn ceiling_division() {
    assert_eq!(div_ceil(0, 4), 0);
    assert_eq!(div_ceil(1, 4), 1);
    assert_eq!(div_ceil(4, 4), 1);
    assert_eq!(div_ceil(5, 4), 2);
    assert_eq!(div_ceil(u64::MAX, 1), u64::MAX);
    assert_eq!(div_ceil(u64::MAX, 2), 1 << 63);
}

#[test]
fn empty_blob_counts_one_share() {
    assert_eq!(blob_size(0), 1);
    assert_eq!(blob_size(1), 1);
    assert_eq!(blob_size(7), 7);
}
