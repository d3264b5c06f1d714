//! From the four output tensors of an SSD model to the detection buffer of the wire protocol.
//!
//! The buffer is a table of [`MAX_DETECTIONS`] rows of [`DETECTION_FIELDS`] single-precision
//! numbers, little-endian. The numbers are held as bit patterns (see [`crate::binary32`]).

use crate::binary32::{is_less, less_than, scaled, truncate_to, truncated, ZERO_BITS};
use vstd::arithmetic::power2::{lemma2_to64, lemma_pow2_adds, lemma_pow2_pos, pow2};
use vstd::prelude::*;

verus! {

/// Rows of the detection buffer.
pub const MAX_DETECTIONS: usize = 20;

/// Numbers in one row: class, score, y_min, x_min, y_max, x_max.
pub const DETECTION_FIELDS: usize = 6;

/// Bytes of the detection buffer.
pub const EXPECTED_OUTPUT_BYTES: usize = 480;

/// The lowest score of a detection that is reported: 0.4 in single precision.
pub const MIN_SCORE_BITS: u32 = 0x3ecc_cccd;

/// The element of a tensor, zero beyond its end.
pub open spec fn element(tensor: Seq<u32>, i: int) -> u32 {
    if 0 <= i < tensor.len() {
        tensor[i]
    } else {
        ZERO_BITS
    }
}

/// How many detections the count tensor announces, at most [`MAX_DETECTIONS`].
pub open spec fn announced(count: Seq<u32>) -> int {
    if count.len() == 0 {
        0
    } else if truncated(count[0]) < MAX_DETECTIONS {
        truncated(count[0])
    } else {
        MAX_DETECTIONS as int
    }
}

/// Whether detection `i` has too low a score to be reported. A NaN is not too low.
pub open spec fn too_low(scores: Seq<u32>, i: int) -> bool {
    less_than(element(scores, i), MIN_SCORE_BITS)
}

/// The first detection from `i` on that has too low a score, `limit` where there is none
/// before it.
pub open spec fn first_too_low(scores: Seq<u32>, i: int, limit: int) -> int
    decreases limit - i,
{
    if i >= limit {
        limit
    } else if too_low(scores, i) {
        i
    } else {
        first_too_low(scores, i + 1, limit)
    }
}

/// How many detections are reported: those before the first that has too low a score.
pub open spec fn reported(scores: Seq<u32>, count: Seq<u32>) -> int {
    first_too_low(scores, 0, announced(count))
}

/// The row of detection `i`: class, score, y_min, x_min, y_max, x_max.
pub open spec fn detection_row(
    boxes: Seq<u32>,
    class_ids: Seq<u32>,
    scores: Seq<u32>,
    i: int,
) -> Seq<u32> {
    seq![
        element(class_ids, i),
        element(scores, i),
        element(boxes, 4 * i),
        element(boxes, 4 * i + 1),
        element(boxes, 4 * i + 2),
        element(boxes, 4 * i + 3),
    ]
}

/// The table of detections: a row for each reported detection, zeros below.
pub open spec fn detection_table(
    boxes: Seq<u32>,
    class_ids: Seq<u32>,
    scores: Seq<u32>,
    count: Seq<u32>,
) -> Seq<u32> {
    Seq::new(
        (MAX_DETECTIONS * DETECTION_FIELDS) as nat,
        |k: int|
            if k / 6 < reported(scores, count) {
                detection_row(boxes, class_ids, scores, k / 6)[k % 6]
            } else {
                ZERO_BITS
            },
    )
}

/// Byte `j` of a number, counted from the lowest.
pub open spec fn byte_of(word: u32, j: int) -> u8 {
    if j == 0 {
        (word as int % 256) as u8
    } else if j == 1 {
        (word as int / 0x100 % 256) as u8
    } else if j == 2 {
        (word as int / 0x1_0000 % 256) as u8
    } else {
        (word as int / 0x100_0000) as u8
    }
}

/// The numbers as bytes, each lowest byte first.
pub open spec fn le_bytes(words: Seq<u32>) -> Seq<u8> {
    Seq::new((4 * words.len()) as nat, |k: int| byte_of(words[k / 4], k % 4))
}

/// The numbers that little-endian bytes stand for, four bytes each.
pub open spec fn from_le_bytes(bytes: Seq<u8>) -> Seq<u32> {
    Seq::new(
        (bytes.len() / 4) as nat,
        |i: int|
            (bytes[4 * i] + 0x100 * bytes[4 * i + 1] + 0x1_0000 * bytes[4 * i + 2] + 0x100_0000
                * bytes[4 * i + 3]) as u32,
    )
}

/// The detection buffer for four output tensors.
pub open spec fn detection_bytes(
    boxes: Seq<u32>,
    class_ids: Seq<u32>,
    scores: Seq<u32>,
    count: Seq<u32>,
) -> Seq<u8> {
    le_bytes(detection_table(boxes, class_ids, scores, count))
}

/// The detection buffer without a detection.
pub open spec fn zero_bytes() -> Seq<u8> {
    Seq::new(EXPECTED_OUTPUT_BYTES as nat, |i: int| 0u8)
}

/// The element of a tensor, zero beyond its end.
fn element_or_zero(tensor: &[u32], i: usize) -> (r: u32)
    ensures
        r == element(tensor@, i as int),
{
    if i < tensor.len() {
        tensor[i]
    } else {
        ZERO_BITS
    }
}

/// The numbers as little-endian bytes.
pub fn f32_slice_to_le_bytes(data: &[u32]) -> (r: Vec<u8>)
    ensures
        r@ == le_bytes(data@),
{
    let mut bytes: Vec<u8> = Vec::new();
    for i in 0..data.len()
        invariant
            bytes@ == le_bytes(data@.take(i as int)),
    {
        let word: u32 = data[i];
        bytes.push((word % 256) as u8);
        bytes.push((word / 0x100 % 256) as u8);
        bytes.push((word / 0x1_0000 % 256) as u8);
        bytes.push((word / 0x100_0000) as u8);
        proof {
            let next = le_bytes(data@.take(i + 1));
            assert forall|k: int| 0 <= k < next.len() implies next[k] == bytes@[k] by {
                if k >= 4 * i {
                    assert(k / 4 == i);
                } else {
                    assert(k / 4 < i);
                }
            }
            assert(bytes@ =~= next);
        }
    }
    proof {
        assert(data@.take(data.len() as int) =~= data@);
    }
    bytes
}

/// The detection buffer for the tensors of boxes (y_min, x_min, y_max, x_max each), class
/// numbers, scores and the count of detections.
pub fn assemble_detections(
    boxes: &[u32],
    class_ids: &[u32],
    scores: &[u32],
    count: &[u32],
) -> (r: Vec<u8>)
    ensures
        r@ == detection_bytes(boxes@, class_ids@, scores@, count@),
        r@.len() == EXPECTED_OUTPUT_BYTES,
{
    let det_count: usize = if count.len() == 0 {
        0
    } else {
        truncate_to(count[0], MAX_DETECTIONS as u32) as usize
    };
    let mut table: Vec<u32> = Vec::new();
    let mut i: usize = 0;
    while i < det_count && !is_less(element_or_zero(scores, i), MIN_SCORE_BITS)
        invariant
            i <= det_count <= MAX_DETECTIONS,
            det_count == announced(count@),
            reported(scores@, count@) == first_too_low(scores@, i as int, det_count as int),
            table@.len() == 6 * i,
            forall|k: int|
                0 <= k < 6 * i ==> #[trigger] table@[k] == detection_row(
                    boxes@,
                    class_ids@,
                    scores@,
                    k / 6,
                )[k % 6],
        decreases det_count - i,
    {
        table.push(element_or_zero(class_ids, i));
        table.push(element_or_zero(scores, i));
        table.push(element_or_zero(boxes, 4 * i));
        table.push(element_or_zero(boxes, 4 * i + 1));
        table.push(element_or_zero(boxes, 4 * i + 2));
        table.push(element_or_zero(boxes, 4 * i + 3));
        i += 1;
    }
    let ghost rows = i as int;
    proof {
        assert(reported(scores@, count@) == rows);
    }
    while table.len() < MAX_DETECTIONS * DETECTION_FIELDS
        invariant
            0 <= 6 * rows <= table@.len() <= MAX_DETECTIONS * DETECTION_FIELDS,
            reported(scores@, count@) == rows,
            forall|k: int|
                0 <= k < 6 * rows ==> #[trigger] table@[k] == detection_row(
                    boxes@,
                    class_ids@,
                    scores@,
                    k / 6,
                )[k % 6],
            forall|k: int| 6 * rows <= k < table@.len() ==> #[trigger] table@[k] == ZERO_BITS,
        decreases MAX_DETECTIONS * DETECTION_FIELDS - table.len(),
    {
        table.push(ZERO_BITS);
    }
    proof {
        assert(table@ =~= detection_table(boxes@, class_ids@, scores@, count@));
    }
    f32_slice_to_le_bytes(&table)
}

/// The detection buffer without a detection.
pub fn zero_detections() -> (r: Vec<u8>)
    ensures
        r@ == zero_bytes(),
{
    let r: Vec<u8> = vec![0u8; EXPECTED_OUTPUT_BYTES];
    proof {
        assert(r@ =~= zero_bytes());
    }
    r
}

/// The reported detections are the announced ones before the first that has too low a score:
/// none of them has too low a score, and the next announced one has.
pub proof fn lemma_reported_is_the_leading_run(scores: Seq<u32>, count: Seq<u32>)
    ensures
        0 <= reported(scores, count) <= announced(count) <= MAX_DETECTIONS,
        forall|i: int| 0 <= i < reported(scores, count) ==> !#[trigger] too_low(scores, i),
        reported(scores, count) < announced(count) ==> too_low(
            scores,
            reported(scores, count),
        ),
{
    lemma_announced_in_range(count);
    lemma_first_too_low(scores, 0, announced(count));
}

/// The count tensor announces between zero and [`MAX_DETECTIONS`] detections.
proof fn lemma_announced_in_range(count: Seq<u32>)
    ensures
        0 <= announced(count) <= MAX_DETECTIONS,
{
    if count.len() > 0 {
        lemma_pow2_pos(149);
        let bits = count[0];
        if crate::binary32::magnitude(bits) > 0 {
            crate::binary32::lemma_scaled_magnitude_increases(
                0,
                crate::binary32::magnitude(bits),
            );
        }
        if scaled(bits) >= 0 {
            vstd::arithmetic::div_mod::lemma_div_pos_is_pos(scaled(bits), pow2(149) as int);
        }
    }
}

proof fn lemma_first_too_low(scores: Seq<u32>, i: int, limit: int)
    requires
        i <= limit,
    ensures
        i <= first_too_low(scores, i, limit) <= limit,
        forall|j: int|
            i <= j < first_too_low(scores, i, limit) ==> !#[trigger] too_low(scores, j),
        first_too_low(scores, i, limit) < limit ==> too_low(
            scores,
            first_too_low(scores, i, limit),
        ),
    decreases limit - i,
{
    if i < limit && !too_low(scores, i) {
        lemma_first_too_low(scores, i + 1, limit);
    }
}

/// Little-endian bytes give back the numbers that they were made from.
pub proof fn lemma_le_bytes_round_trip(words: Seq<u32>)
    ensures
        from_le_bytes(le_bytes(words)) == words,
{
    let bytes = le_bytes(words);
    assert forall|i: int| 0 <= i < words.len() implies from_le_bytes(bytes)[i] == words[i] by {
        let w = words[i] as int;
        assert((4 * i) / 4 == i && (4 * i + 1) / 4 == i && (4 * i + 2) / 4 == i && (4 * i + 3) / 4
            == i);
        assert(w == w % 256 + 0x100 * (w / 0x100 % 256) + 0x1_0000 * (w / 0x1_0000 % 256)
            + 0x100_0000 * (w / 0x100_0000));
    }
    assert(from_le_bytes(bytes) =~= words);
}

/// Read back as numbers, the buffer holds in row `i` the class, score and box of reported
/// detection `i`, and zeros in every row below the reported ones.
pub proof fn lemma_detection_buffer_reads_back(
    boxes: Seq<u32>,
    class_ids: Seq<u32>,
    scores: Seq<u32>,
    count: Seq<u32>,
    i: int,
)
    requires
        0 <= i < MAX_DETECTIONS,
    ensures
        detection_bytes(boxes, class_ids, scores, count).len() == EXPECTED_OUTPUT_BYTES,
        from_le_bytes(detection_bytes(boxes, class_ids, scores, count)).subrange(6 * i, 6 * i + 6)
            == if i < reported(scores, count) {
            detection_row(boxes, class_ids, scores, i)
        } else {
            Seq::new(6, |j: int| ZERO_BITS)
        },
{
    let table = detection_table(boxes, class_ids, scores, count);
    lemma_le_bytes_round_trip(table);
    assert forall|j: int| 0 <= j < 6 implies #[trigger] (6 * i + j) / 6 == i && (6 * i + j) % 6
        == j by {}
    let row = table.subrange(6 * i, 6 * i + 6);
    assert forall|j: int| 0 <= j < 6 implies row[j] == (if i < reported(scores, count) {
        detection_row(boxes, class_ids, scores, i)[j]
    } else {
        ZERO_BITS
    }) by {
        assert((6 * i + j) / 6 == i);
    }
    if i < reported(scores, count) {
        assert(row =~= detection_row(boxes, class_ids, scores, i));
    } else {
        assert(row =~= Seq::new(6, |j: int| ZERO_BITS));
    }
}

/// A model that announces nothing gives the same buffer as a failed inference.
pub proof fn lemma_nothing_announced_gives_zeros(
    boxes: Seq<u32>,
    class_ids: Seq<u32>,
    scores: Seq<u32>,
    count: Seq<u32>,
)
    requires
        announced(count) == 0,
    ensures
        detection_bytes(boxes, class_ids, scores, count) == zero_bytes(),
{
    assert(detection_bytes(boxes, class_ids, scores, count) =~= zero_bytes());
}

/// The lowest reported score is the single-precision number nearest to two fifths: it is off
/// by less than half the step to its neighbour.
pub proof fn lemma_min_score_is_two_fifths()
    ensures
        2 * (5 * scaled(MIN_SCORE_BITS) - 2 * pow2(149)) < 5 * pow2(124),
        2 * (2 * pow2(149) - 5 * scaled(MIN_SCORE_BITS)) < 5 * pow2(124),
        scaled((MIN_SCORE_BITS + 1) as u32) - scaled(MIN_SCORE_BITS) == pow2(124),
{
    lemma_pow2_pos(124);
    lemma2_to64();
    lemma_pow2_adds(25, 124);
    assert(pow2(149) == 0x200_0000 * pow2(124)) by (nonlinear_arith)
        requires
            pow2(149) == pow2(25) * pow2(124),
            pow2(25) == 0x200_0000,
    ;
    assert(scaled(MIN_SCORE_BITS) == 13421773 * pow2(124));
    assert(scaled((MIN_SCORE_BITS + 1) as u32) == 13421774 * pow2(124));
}

/// The bit pattern of a whole number from one to twenty.
pub open spec fn small_number_bits(k: int) -> u32 {
    seq![
        0x3f80_0000u32,
        0x4000_0000,
        0x4040_0000,
        0x4080_0000,
        0x40a0_0000,
        0x40c0_0000,
        0x40e0_0000,
        0x4100_0000,
        0x4110_0000,
        0x4120_0000,
        0x4130_0000,
        0x4140_0000,
        0x4150_0000,
        0x4160_0000,
        0x4170_0000,
        0x4180_0000,
        0x4188_0000,
        0x4190_0000,
        0x4198_0000,
        0x41a0_0000,
    ][k - 1]
}

/// Whether detection `j` may be reported: the first number of the count tensor is more than
/// `j`, and element `j` of the score tensor, zero beyond its end, is not below 0.4. Below 0.4
/// are the patterns under 0x3ecc_cccd and those from negative zero to negative infinity.
pub open spec fn may_be_reported(scores: Seq<u32>, count: Seq<u32>, j: int) -> bool {
    let score: u32 = if j < scores.len() {
        scores[j]
    } else {
        0
    };
    &&& count.len() > 0
    &&& small_number_bits(j + 1) <= count[0] <= 0x7f80_0000
    &&& score >= 0x3ecc_cccd
    &&& !(0x8000_0000 <= score <= 0xff80_0000)
}

/// The count tensor announces at least `k` detections exactly where its first number is at
/// least `k`.
proof fn lemma_announced(count: Seq<u32>, k: int)
    requires
        1 <= k <= 20,
    ensures
        k <= announced(count) <==> count.len() > 0 && small_number_bits(k) <= count[0]
            <= 0x7f80_0000,
{
    lemma2_to64();
    if count.len() > 0 {
        let bits = count[0];
        if k == 1 {
            crate::binary32::lemma_whole_numbers(bits, k, 0);
        } else if k < 4 {
            crate::binary32::lemma_whole_numbers(bits, k, 1);
            assert((k - 2) * pow2(22) == (k - 2) * 0x40_0000) by (nonlinear_arith)
                requires
                    pow2(22) == 0x40_0000,
            ;
        } else if k < 8 {
            crate::binary32::lemma_whole_numbers(bits, k, 2);
            assert((k - 4) * pow2(21) == (k - 4) * 0x20_0000) by (nonlinear_arith)
                requires
                    pow2(21) == 0x20_0000,
            ;
        } else if k < 16 {
            crate::binary32::lemma_whole_numbers(bits, k, 3);
            assert((k - 8) * pow2(20) == (k - 8) * 0x10_0000) by (nonlinear_arith)
                requires
                    pow2(20) == 0x10_0000,
            ;
        } else {
            crate::binary32::lemma_whole_numbers(bits, k, 4);
            assert((k - 16) * pow2(19) == (k - 16) * 0x8_0000) by (nonlinear_arith)
                requires
                    pow2(19) == 0x8_0000,
            ;
        }
    }
}

/// What stands in the buffer for four output tensors, by their position: in row `row` the
/// element of the class tensor, of the score tensor, and the four of the box tensor, zero
/// beyond the end of a tensor, each as four bytes from the lowest on; but zeros where that
/// detection or one before it may not be reported.
pub proof fn lemma_buffer_shows_the_tensors(
    boxes: Seq<u32>,
    class_ids: Seq<u32>,
    scores: Seq<u32>,
    count: Seq<u32>,
    row: int,
    column: int,
)
    requires
        0 <= row < 20,
        0 <= column < 6,
    ensures
        detection_bytes(boxes, class_ids, scores, count).len() == 480,
        ({
            let bytes = detection_bytes(boxes, class_ids, scores, count);
            let at = 24 * row + 4 * column;
            bytes[at] + 0x100 * bytes[at + 1] + 0x1_0000 * bytes[at + 2] + 0x100_0000 * bytes[at
                + 3]
        }) == if !(forall|j: int|
            0 <= j <= row ==> #[trigger] may_be_reported(scores, count, j)) {
            0
        } else if column == 0 {
            if row < class_ids.len() {
                class_ids[row] as int
            } else {
                0
            }
        } else if column == 1 {
            if row < scores.len() {
                scores[row] as int
            } else {
                0
            }
        } else {
            if 4 * row + column - 2 < boxes.len() {
                boxes[4 * row + column - 2] as int
            } else {
                0
            }
        },
{
    let table = detection_table(boxes, class_ids, scores, count);
    let bytes = detection_bytes(boxes, class_ids, scores, count);
    let n = reported(scores, count);
    let k = 6 * row + column;
    let w = table[k] as int;
    lemma_reported_is_the_leading_run(scores, count);
    assert forall|j: int| 0 <= j < 20 implies (#[trigger] may_be_reported(scores, count, j)
        <==> j < announced(count) && !too_low(scores, j)) by {
        lemma_announced(count, j + 1);
        crate::binary32::lemma_order_of_patterns(element(scores, j), MIN_SCORE_BITS);
    }
    assert(row < n <==> forall|j: int|
        0 <= j <= row ==> #[trigger] may_be_reported(scores, count, j)) by {
        if row < n {
            assert forall|j: int| 0 <= j <= row implies #[trigger] may_be_reported(
                scores,
                count,
                j,
            ) by {
                assert(!too_low(scores, j));
            }
        } else {
            assert(may_be_reported(scores, count, n) <==> n < announced(count) && !too_low(
                scores,
                n,
            ));
        }
    }
    assert(k / 6 == row && k % 6 == column);
    assert((4 * k) / 4 == k && (4 * k + 1) / 4 == k && (4 * k + 2) / 4 == k && (4 * k + 3) / 4
        == k);
    assert(w == w % 256 + 0x100 * (w / 0x100 % 256) + 0x1_0000 * (w / 0x1_0000 % 256) + 0x100_0000
        * (w / 0x100_0000));
}

/// The buffer without a detection is 480 zero bytes.
pub proof fn lemma_zero_bytes()
    ensures
        zero_bytes().len() == 480,
        forall|i: int| 0 <= i < 480 ==> #[trigger] zero_bytes()[i] == 0,
{
}

/// Each number becomes four bytes that add up to it, the first of them with weight one, the
/// next with weight 256, and so on.
pub proof fn lemma_bytes_add_up(words: Seq<u32>, i: int)
    requires
        0 <= i < words.len(),
    ensures
        le_bytes(words).len() == 4 * words.len(),
        le_bytes(words)[4 * i] + 0x100 * le_bytes(words)[4 * i + 1] + 0x1_0000 * le_bytes(words)[4
            * i + 2] + 0x100_0000 * le_bytes(words)[4 * i + 3] == words[i],
{
    let w = words[i] as int;
    assert((4 * i) / 4 == i && (4 * i + 1) / 4 == i && (4 * i + 2) / 4 == i && (4 * i + 3) / 4
        == i);
    assert(w == w % 256 + 0x100 * (w / 0x100 % 256) + 0x1_0000 * (w / 0x1_0000 % 256) + 0x100_0000
        * (w / 0x100_0000));
}

} // verus!
