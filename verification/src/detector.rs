//! The Detector's decision logic: the model-availability gate and the
//! reduction of raw detections into the response payload.
//!
//! Confidence scores are carried as integers in parts per million of the
//! model's `[0, 1]` range, so that the arithmetic of the reduction can be
//! stated and proved exactly; the surrounding server converts at its edge.

use vstd::arithmetic::div_mod::{lemma_div_by_multiple, lemma_div_is_ordered};
use vstd::prelude::*;

use crate::errors::ProcessError;

verus! {

/// A confidence score of exactly 1.0, in parts per million.
pub const MAX_SCORE_PPM: u32 = 1000000;

/// An axis-aligned bounding box in pixel coordinates.
#[derive(Clone, Copy, Debug, PartialEq, Eq, Structural)]
pub struct BoundingBox {
    pub x: i32,
    pub y: i32,
    pub width: i32,
    pub height: i32,
}

impl BoundingBox {
    /// A bounding box always covers at least one pixel.
    pub open spec fn wf(&self) -> bool {
        self.width > 0 && self.height > 0
    }
}

/// One detected object: a bounding box and a confidence score in parts per
/// million of the model's `[0, 1]` range.
#[derive(Clone, Copy, Debug, PartialEq, Eq, Structural)]
pub struct Detection {
    pub bbox: BoundingBox,
    pub score_ppm: u32,
}

impl Detection {
    pub open spec fn wf(&self) -> bool {
        self.bbox.wf() && self.score_ppm <= MAX_SCORE_PPM
    }
}

/// Whether the process-wide detection model loaded. Fixed once at startup:
/// there is no operation that changes it afterwards.
#[derive(Clone, Copy, Debug, PartialEq, Eq, Structural)]
pub enum ModelStatus {
    Loaded,
    LoadFailed,
}

impl ModelStatus {
    /// The model gate: detection may proceed exactly when the model loaded.
    /// Since a `ModelStatus` never changes, a failed load makes every
    /// subsequent detection call fail with `ModelUnavailable`.
    pub fn require_loaded(&self) -> (r: Result<(), ProcessError>)
        ensures
            r is Ok <==> *self is Loaded,
            r is Err ==> r->Err_0 == ProcessError::ModelUnavailable,
    {
        match self {
            ModelStatus::Loaded => Ok(()),
            ModelStatus::LoadFailed => Err(ProcessError::ModelUnavailable),
        }
    }
}

/// The response payload: one `[x, y, width, height]` row per detection, and
/// the mean confidence scaled to `[0, 100]`, held in parts per million.
#[derive(Debug)]
pub struct ResponseData {
    pub boxes_list: Vec<Vec<i32>>,
    pub average_score_ppm: u64,
}

/// The sum of the scores of a detection sequence, in parts per million.
pub open spec fn sum_scores_ppm(ds: Seq<Detection>) -> int
    decreases ds.len(),
{
    if ds.len() == 0 {
        0
    } else {
        sum_scores_ppm(ds.drop_last()) + ds.last().score_ppm
    }
}

/// The aggregate score owed for a detection sequence: the mean score scaled
/// by 100, in parts per million — and exactly 0 for zero detections.
pub open spec fn average_score_ppm_of(ds: Seq<Detection>) -> int {
    if ds.len() == 0 {
        0
    } else {
        (100 * sum_scores_ppm(ds)) / (ds.len() as int)
    }
}

/// The row a bounding box is projected to: `[x, y, width, height]`.
pub open spec fn box_row(b: BoundingBox) -> Seq<i32> {
    seq![b.x, b.y, b.width, b.height]
}

/// The rows owed for a detection sequence, in the model's output order; the
/// class of each detection is discarded by design.
pub open spec fn rows_of(ds: Seq<Detection>) -> Seq<Seq<i32>> {
    Seq::new(ds.len(), |i: int| box_row(ds[i].bbox))
}

/// The sum of scores of a prefix grows by the next score.
proof fn lemma_sum_scores_take_step(ds: Seq<Detection>, i: int)
    requires
        0 <= i < ds.len(),
    ensures
        sum_scores_ppm(ds.take(i + 1)) == sum_scores_ppm(ds.take(i)) + ds[i].score_ppm,
{
    assert(ds.take(i + 1).drop_last() =~= ds.take(i));
    assert(ds.take(i + 1).last() == ds[i]);
}

/// Every score is at most one million, so the sum is at most a million per
/// detection.
proof fn lemma_sum_scores_bound(ds: Seq<Detection>)
    requires
        forall|i: int| 0 <= i < ds.len() ==> (#[trigger] ds[i]).wf(),
    ensures
        0 <= sum_scores_ppm(ds) <= ds.len() * (MAX_SCORE_PPM as int),
    decreases ds.len(),
{
    if ds.len() == 0 {
    } else {
        assert(forall|i: int|
            0 <= i < ds.drop_last().len() ==> (#[trigger] ds.drop_last()[i]).wf());
        lemma_sum_scores_bound(ds.drop_last());
        assert(ds.last().wf());
        assert((ds.len() - 1) * (MAX_SCORE_PPM as int) + (MAX_SCORE_PPM as int) == ds.len() * (
        MAX_SCORE_PPM as int)) by (nonlinear_arith);
    }
}

/// The aggregate score always lands in the scaled range `[0, 100]`.
pub proof fn lemma_average_in_range(ds: Seq<Detection>)
    requires
        forall|i: int| 0 <= i < ds.len() ==> (#[trigger] ds[i]).wf(),
    ensures
        0 <= average_score_ppm_of(ds) <= 100 * (MAX_SCORE_PPM as int),
{
    if ds.len() == 0 {
    } else {
        let n = ds.len() as int;
        let s = sum_scores_ppm(ds);
        lemma_sum_scores_bound(ds);
        assert(100 * s <= n * (100 * (MAX_SCORE_PPM as int))) by (nonlinear_arith)
            requires
                s <= n * (MAX_SCORE_PPM as int),
                n >= 1,
        ;
        lemma_div_is_ordered(100 * s, n * (100 * (MAX_SCORE_PPM as int)), n);
        lemma_div_by_multiple(100 * (MAX_SCORE_PPM as int), n);
        assert((n * (100 * (MAX_SCORE_PPM as int))) == ((100 * (MAX_SCORE_PPM as int)) * n))
            by (nonlinear_arith);
        lemma_div_is_ordered(0, 100 * s, n);
    }
}

/// Law: the reduction is a pure function of the detection sequence. Two
/// requests whose detections are equal — whether they run one after the
/// other or beside each other against the shared model — are owed the same
/// aggregate score and the same rows.
pub proof fn lemma_reduction_deterministic(a: Seq<Detection>, b: Seq<Detection>)
    requires
        a == b,
    ensures
        average_score_ppm_of(a) == average_score_ppm_of(b),
        rows_of(a) == rows_of(b),
{
}

/// What the model's parallel output lists must look like to be usable: equal
/// lengths, every score within the model's `[0, 1]` range, every box
/// non-empty.
pub open spec fn paired_wf(scores: Seq<u32>, boxes: Seq<BoundingBox>) -> bool {
    &&& scores.len() == boxes.len()
    &&& forall|i: int| 0 <= i < scores.len() ==> scores[i] <= MAX_SCORE_PPM
    &&& forall|i: int| 0 <= i < boxes.len() ==> (#[trigger] boxes[i]).wf()
}

/// The detections described by the model's parallel score and box lists,
/// paired in output order.
pub open spec fn detections_of(scores: Seq<u32>, boxes: Seq<BoundingBox>) -> Seq<Detection> {
    Seq::new(scores.len(), |i: int| Detection { bbox: boxes[i], score_ppm: scores[i] })
}

/// Pair the model's parallel score and box lists into detections, keeping
/// their order; class ids are discarded by design and not taken at all. Any
/// breach of the expected shape — unequal lengths, a score beyond 1.0, an
/// empty box — means the inference output is unusable, and the request fails
/// with `DetectionFailure`.
#[verifier::loop_isolation(false)]
pub fn build_detections(scores_ppm: &Vec<u32>, boxes: &Vec<BoundingBox>) -> (r: Result<
    Vec<Detection>,
    ProcessError,
>)
    ensures
        r is Ok <==> paired_wf(scores_ppm@, boxes@),
        r is Ok ==> r->Ok_0@ == detections_of(scores_ppm@, boxes@),
        r is Ok ==> forall|i: int|
            0 <= i < r->Ok_0@.len() ==> (#[trigger] r->Ok_0@[i]).wf(),
        r is Err ==> r->Err_0 == ProcessError::DetectionFailure,
{
    if scores_ppm.len() != boxes.len() {
        return Err(ProcessError::DetectionFailure);
    }
    let n: usize = scores_ppm.len();
    let mut detections: Vec<Detection> = Vec::new();
    let mut i: usize = 0;
    while i < n
        invariant
            i <= n,
            detections@ == detections_of(scores_ppm@, boxes@).take(i as int),
            forall|j: int| 0 <= j < i ==> scores_ppm@[j] <= MAX_SCORE_PPM,
            forall|j: int| 0 <= j < i ==> (#[trigger] boxes@[j]).wf(),
        decreases n - i,
    {
        let score: u32 = scores_ppm[i];
        let bbox: BoundingBox = boxes[i];
        if score > MAX_SCORE_PPM || bbox.width <= 0 || bbox.height <= 0 {
            return Err(ProcessError::DetectionFailure);
        }
        detections.push(Detection { bbox, score_ppm: score });
        assert(detections@ =~= detections_of(scores_ppm@, boxes@).take(i + 1));
        i = i + 1;
    }
    assert(detections@ =~= detections_of(scores_ppm@, boxes@));
    Ok(detections)
}

/// Everything the Detector owes after the raw inference call: pair the
/// model's output lists and reduce them to the response payload, or classify
/// the failure.
pub fn summarize_model_output(scores_ppm: &Vec<u32>, boxes: &Vec<BoundingBox>) -> (r: Result<
    ResponseData,
    ProcessError,
>)
    ensures
        r is Ok <==> paired_wf(scores_ppm@, boxes@),
        r is Ok ==> r->Ok_0.average_score_ppm == average_score_ppm_of(
            detections_of(scores_ppm@, boxes@),
        ),
        r is Ok ==> r->Ok_0.boxes_list@.len() == boxes@.len(),
        r is Ok ==> forall|i: int|
            0 <= i < boxes@.len() ==> (#[trigger] r->Ok_0.boxes_list@[i])@ == box_row(boxes@[i]),
        r is Err ==> r->Err_0 == ProcessError::DetectionFailure,
{
    match build_detections(scores_ppm, boxes) {
        Err(e) => Err(e),
        Ok(detections) => {
            let response = summarize_detections(&detections);
            Ok(response)
        },
    }
}

/// The Detector's reduction: project each detection to its `[x, y, width,
/// height]` row, in order, and average the scores — exactly 0 for zero
/// detections, never a division error.
#[verifier::loop_isolation(false)]
pub fn summarize_detections(detections: &Vec<Detection>) -> (r: ResponseData)
    requires
        forall|i: int| 0 <= i < detections@.len() ==> (#[trigger] detections@[i]).wf(),
    ensures
        r.average_score_ppm == average_score_ppm_of(detections@),
        r.average_score_ppm <= 100 * (MAX_SCORE_PPM as u64),
        r.boxes_list@.len() == detections@.len(),
        forall|i: int|
            0 <= i < detections@.len() ==> (#[trigger] r.boxes_list@[i])@ == box_row(
                detections@[i].bbox,
            ),
        forall|i: int|
            0 <= i < detections@.len() ==> (#[trigger] r.boxes_list@[i])@[2] > 0
                && r.boxes_list@[i]@[3] > 0,
        detections@.len() == 0 ==> r.average_score_ppm == 0 && r.boxes_list@.len() == 0,
{
    let n: usize = detections.len();

    let mut sum: u128 = 0;
    let mut i: usize = 0;
    while i < n
        invariant
            i <= n,
            sum == sum_scores_ppm(detections@.take(i as int)),
            sum <= i * (MAX_SCORE_PPM as int),
        decreases n - i,
    {
        proof {
            lemma_sum_scores_take_step(detections@, i as int);
            assert(detections@[i as int].wf());
            assert(i * (MAX_SCORE_PPM as int) + (MAX_SCORE_PPM as int) == (i + 1) * (
            MAX_SCORE_PPM as int)) by (nonlinear_arith);
            assert((i + 1) * (MAX_SCORE_PPM as int) <= u128::MAX) by (nonlinear_arith)
                requires
                    i + 1 <= usize::MAX as int + 1,
            ;
        }
        sum = sum + detections[i].score_ppm as u128;
        i = i + 1;
    }
    proof {
        assert(detections@.take(n as int) =~= detections@);
    }

    let average_score_ppm: u64 = if n == 0 {
        0
    } else {
        proof {
            lemma_average_in_range(detections@);
            lemma_sum_scores_bound(detections@);
            assert(100 * (sum as int) <= u128::MAX) by (nonlinear_arith)
                requires
                    sum <= (n as int) * (MAX_SCORE_PPM as int),
                    n <= usize::MAX,
            ;
        }
        let scaled: u128 = 100u128 * sum;
        let avg: u128 = scaled / (n as u128);
        proof {
            assert(avg == average_score_ppm_of(detections@));
        }
        avg as u64
    };

    let mut boxes_list: Vec<Vec<i32>> = Vec::new();
    let mut k: usize = 0;
    while k < n
        invariant
            k <= n,
            boxes_list@.len() == k,
            forall|j: int|
                0 <= j < k ==> (#[trigger] boxes_list@[j])@ == box_row(detections@[j].bbox),
        decreases n - k,
    {
        let d = detections[k];
        let mut row: Vec<i32> = Vec::new();
        row.push(d.bbox.x);
        row.push(d.bbox.y);
        row.push(d.bbox.width);
        row.push(d.bbox.height);
        assert(row@ =~= box_row(d.bbox));
        boxes_list.push(row);
        k = k + 1;
    }

    ResponseData { boxes_list, average_score_ppm }
}

} // verus!
