//! Which rows of the extended data square a blob covers.
//!
//! A blob is placed by the offset of its first share. From that offset, the
//! number of its shares and the side length of the square, the functions here
//! derive the first and the last row that hold a share of the blob.

use vstd::prelude::*;

verus! {

/// The quotient of `a` by `b`, rounded up.
pub open spec fn ceil_div(a: int, b: int) -> int
    recommends
        a >= 0,
        b > 0,
{
    if a % b == 0 {
        a / b
    } else {
        a / b + 1
    }
}

/// The side length of the data square before its extension to a square of
/// side `eds_size`.
pub open spec fn ods_size_of(eds_size: int) -> int {
    eds_size / 2
}

/// The first row that holds a share of a blob placed at `blob_index`.
pub open spec fn first_row_index_of(blob_index: int, eds_size: int) -> int {
    ceil_div(blob_index, eds_size) - 1
}

/// The offset of the blob counted in rows of the unextended square.
pub open spec fn ods_index_of(blob_index: int, eds_size: int) -> int {
    blob_index - first_row_index_of(blob_index, eds_size) * ods_size_of(eds_size)
}

/// The last row that holds a share of a blob of `blob_size` shares placed at
/// `blob_index`.
pub open spec fn last_row_index_of(blob_index: int, blob_size: int, eds_size: int) -> int {
    ceil_div(ods_index_of(blob_index, eds_size) + blob_size, ods_size_of(eds_size)) - 1
}

/// The inputs for which the row span is defined in machine integers: a square
/// of side two or more, a blob offset of one or more, and an end offset that
/// fits in 64 bits.
pub open spec fn span_defined(blob_index: int, blob_size: int, eds_size: int) -> bool {
    &&& eds_size >= 2
    &&& blob_index >= 1
    &&& blob_size >= 0
    &&& ods_index_of(blob_index, eds_size) + blob_size <= u64::MAX
}

/// The rows covered by a blob, both ends included.
#[derive(Clone, Copy, Debug, PartialEq, Eq, Structural)]
pub struct RowSpan {
    pub first_row_index: u64,
    pub last_row_index: u64,
}

/// The number of shares a blob counts for: an empty blob still takes one.
pub open spec fn blob_size_of(share_count: int) -> int {
    if share_count < 1 {
        1
    } else {
        share_count
    }
}

/// `blob_size_of` on machine integers.
pub fn blob_size(share_count: u64) -> (size: u64)
    ensures
        size == blob_size_of(share_count as int),
        size >= 1,
{
    if share_count < 1 {
        1
    } else {
        share_count
    }
}

/// Division rounded up, on machine integers.
pub fn div_ceil(a: u64, b: u64) -> (q: u64)
    requires
        b > 0,
    ensures
        q == ceil_div(a as int, b as int),
{
    let d: u64 = a / b;
    let r: u64 = a % b;
    if r == 0 {
        d
    } else {
        assert(d * b <= a) by (nonlinear_arith)
            requires
                d == a / b,
                b > 0,
        ;
        assert(d < u64::MAX) by (nonlinear_arith)
            requires
                d == a / b,
                r == a % b,
                r != 0,
                b > 0,
                a <= u64::MAX,
        ;
        d + 1
    }
}

/// `ceil_div(a, b)` is the least `q` with `a <= q * b`.
pub proof fn lemma_ceil_div_bounds(a: int, b: int)
    requires
        a >= 0,
        b > 0,
    ensures
        a <= ceil_div(a, b) * b,
        a > 0 ==> (ceil_div(a, b) - 1) * b < a,
        a > 0 ==> ceil_div(a, b) >= 1,
        ceil_div(a, b) >= 0,
{
    let q = a / b;
    let r = a % b;
    assert(a == q * b + r && 0 <= r < b && q >= 0) by (nonlinear_arith)
        requires
            a >= 0,
            b > 0,
            q == a / b,
            r == a % b,
    ;
    assert((q + 1) * b == q * b + b) by (nonlinear_arith);
    assert((q - 1) * b == q * b - b) by (nonlinear_arith);
    if a > 0 && r == 0 {
        assert(q >= 1) by (nonlinear_arith)
            requires
                a == q * b,
                a > 0,
                b > 0,
        ;
    }
}

/// `ceil_div(a, b) <= q` exactly when `a <= q * b`.
pub proof fn lemma_ceil_div_le(a: int, b: int, q: int)
    requires
        a >= 0,
        b > 0,
    ensures
        ceil_div(a, b) <= q <==> a <= q * b,
{
    lemma_ceil_div_bounds(a, b);
    let c = ceil_div(a, b);
    if c <= q {
        assert(c * b <= q * b) by (nonlinear_arith)
            requires
                c <= q,
                b > 0,
        ;
    } else {
        assert((c - 1) * b >= q * b) by (nonlinear_arith)
            requires
                c - 1 >= q,
                b > 0,
        ;
        if a == 0 {
            assert(c == 0);
            assert(q * b < 0) by (nonlinear_arith)
                requires
                    q < 0,
                    b > 0,
            ;
        }
    }
}

/// The first row never lies after the last, and the first row lies in the
/// square whenever the blob starts in it.
pub proof fn lemma_first_row_bounds(blob_index: int, blob_size: int, eds_size: int)
    requires
        eds_size >= 2,
        blob_index >= 1,
        blob_size >= 0,
    ensures
        0 <= first_row_index_of(blob_index, eds_size),
        first_row_index_of(blob_index, eds_size) * eds_size < blob_index,
        first_row_index_of(blob_index, eds_size) * ods_size_of(eds_size) < blob_index,
        ods_index_of(blob_index, eds_size) >= 1,
        first_row_index_of(blob_index, eds_size) <= last_row_index_of(
            blob_index,
            blob_size,
            eds_size,
        ),
        blob_index <= eds_size * eds_size ==> first_row_index_of(blob_index, eds_size) < eds_size,
{
    let first = first_row_index_of(blob_index, eds_size);
    let ods = ods_size_of(eds_size);
    lemma_ceil_div_bounds(blob_index, eds_size);
    assert(first * ods <= first * eds_size) by (nonlinear_arith)
        requires
            first >= 0,
            0 <= ods <= eds_size,
    ;
    assert(2 * (first * ods) <= first * eds_size) by (nonlinear_arith)
        requires
            first >= 0,
            0 <= 2 * ods <= eds_size,
    ;
    let a = ods_index_of(blob_index, eds_size) + blob_size;
    lemma_ceil_div_le(a, ods, first);
    lemma_ceil_div_le(blob_index, eds_size, eds_size);
}

/// The last row lies in the square exactly when the offset of the blob's end,
/// counted in rows of the unextended square, does not pass `eds_size` such
/// rows.
pub proof fn lemma_last_row_in_square(blob_index: int, blob_size: int, eds_size: int)
    requires
        eds_size >= 2,
        blob_index >= 1,
        blob_size >= 0,
    ensures
        last_row_index_of(blob_index, blob_size, eds_size) < eds_size <==> ods_index_of(
            blob_index,
            eds_size,
        ) + blob_size <= eds_size * ods_size_of(eds_size),
{
    lemma_first_row_bounds(blob_index, blob_size, eds_size);
    lemma_ceil_div_le(
        ods_index_of(blob_index, eds_size) + blob_size,
        ods_size_of(eds_size),
        eds_size,
    );
}

/// For a blob that starts in the square and whose end does not pass the last
/// row, the rows it covers are in order and inside the square.
pub proof fn law_row_span_in_square(blob_index: int, blob_size: int, eds_size: int)
    requires
        eds_size >= 2,
        1 <= blob_index <= eds_size * eds_size,
        1 <= blob_size <= ods_size_of(eds_size) * ods_size_of(eds_size),
        ods_index_of(blob_index, eds_size) + blob_size <= eds_size * ods_size_of(eds_size),
    ensures
        0 <= first_row_index_of(blob_index, eds_size) <= last_row_index_of(
            blob_index,
            blob_size,
            eds_size,
        ) < eds_size,
{
    lemma_first_row_bounds(blob_index, blob_size, eds_size);
    lemma_last_row_in_square(blob_index, blob_size, eds_size);
}

/// The rows covered by a blob of `blob_size` shares placed at `blob_index` in
/// a square of side `eds_size`; `None` where the span is not defined.
pub fn row_span(blob_index: u64, blob_size: u64, eds_size: u64) -> (span: Option<RowSpan>)
    ensures
        match span {
            Some(s) => {
                &&& span_defined(blob_index as int, blob_size as int, eds_size as int)
                &&& s.first_row_index == first_row_index_of(blob_index as int, eds_size as int)
                &&& s.last_row_index == last_row_index_of(
                    blob_index as int,
                    blob_size as int,
                    eds_size as int,
                )
                &&& s.first_row_index <= s.last_row_index
            },
            None => !span_defined(blob_index as int, blob_size as int, eds_size as int),
        },
{
    if eds_size < 2 || blob_index < 1 {
        return None;
    }
    let ods_size: u64 = eds_size / 2;
    proof {
        lemma_first_row_bounds(blob_index as int, blob_size as int, eds_size as int);
        lemma_ceil_div_bounds(
            ods_index_of(blob_index as int, eds_size as int) + blob_size,
            ods_size as int,
        );
    }
    let first_row_index: u64 = div_ceil(blob_index, eds_size) - 1;
    let ods_index: u64 = blob_index - first_row_index * ods_size;
    let end: u64 = match ods_index.checked_add(blob_size) {
        Some(end) => end,
        None => {
            return None;
        },
    };
    let last_row_index: u64 = div_ceil(end, ods_size) - 1;
    Some(RowSpan { first_row_index, last_row_index })
}

} // verus!
