//! Reduction of per-frame classifier scores to a single verdict.
//!
//! A frame classifier reports, for each frame, a confidence per label out
//! of a fixed set.  Scores are carried as basis points: 10_000 stands for
//! a confidence of 1.0.  Two decision policies reduce them:
//!
//! * single image: the first label whose score meets the single-frame
//!   threshold wins, in the classifier's own enumeration order;
//! * multiple frames (GIF, video): per label, the qualifying scores are
//!   summed across all frames seen, and a label wins once its sum divided
//!   by the number of frames seen reaches the running-average threshold.
//!   The denominator counts every frame, so a single suspicious frame in
//!   an otherwise indifferent clip does not decide by itself.

use vstd::arithmetic::div_mod::lemma_div_is_ordered;
use vstd::arithmetic::div_mod::lemma_div_multiples_vanish;
use vstd::prelude::*;

verus! {

/// A score of 1.0 in basis points.
pub const SCORE_ONE: u32 = 10000;

/// Single-frame threshold: a label qualifies at 0.85 or more.
pub const FRAME_THRESHOLD: u32 = 8500;

/// Running-average threshold: a label wins at an average of 0.9 or more.
pub const AVERAGE_THRESHOLD: u32 = 9000;

/// How many labels the classifier scores per frame.
pub const LABEL_COUNT: usize = 5;

/// How many video frames are buffered before a batch is classified.
pub const BATCH_SIZE: usize = 30;

/// The actionable content classes.
#[derive(Copy, Clone, Hash, PartialEq, Eq, PartialOrd, Ord, Debug, Structural)]
pub enum ImageContent {
    Hentai,
    Porn,
    Sexy,
}

impl ImageContent {
    /// The human-readable name of the content class.
    pub open spec fn spec_name(self) -> Seq<char> {
        match self {
            ImageContent::Hentai => "Hentai image content"@,
            ImageContent::Porn => "Porn image content"@,
            ImageContent::Sexy => "Sexy image content"@,
        }
    }

    /// The label shown to moderators for this content class.
    pub fn as_str(&self) -> (r: &'static str)
        ensures
            r@ == self.spec_name(),
    {
        match self {
            ImageContent::Hentai => "Hentai image content",
            ImageContent::Porn => "Porn image content",
            ImageContent::Sexy => "Sexy image content",
        }
    }
}

/// The full label set the classifier scores.  Only `Hentai`, `Porn` and
/// `Sexy` are actionable; `Drawings` and `Neutral` never are.
#[derive(Copy, Clone, PartialEq, Eq, Debug, Structural)]
pub enum FrameLabel {
    Drawings,
    Hentai,
    Neutral,
    Porn,
    Sexy,
}

/// One label's confidence for one frame, in basis points.
#[derive(Copy, Clone, PartialEq, Eq, Debug, Structural)]
pub struct Classification {
    pub metric: FrameLabel,
    pub score: u32,
}

/// The single-frame filter: an actionable label at or above the
/// single-frame threshold qualifies, with its score; anything else does
/// not.  Exactly at the threshold still qualifies.
pub open spec fn spec_check_classification(c: Classification) -> Option<(ImageContent, u32)> {
    match c.metric {
        FrameLabel::Hentai => if c.score >= FRAME_THRESHOLD {
            Some((ImageContent::Hentai, c.score))
        } else {
            None
        },
        FrameLabel::Porn => if c.score >= FRAME_THRESHOLD {
            Some((ImageContent::Porn, c.score))
        } else {
            None
        },
        FrameLabel::Sexy => if c.score >= FRAME_THRESHOLD {
            Some((ImageContent::Sexy, c.score))
        } else {
            None
        },
        FrameLabel::Drawings => None,
        FrameLabel::Neutral => None,
    }
}

/// Applies the single-frame filter to one classification.
pub fn check_classification(c: Classification) -> (r: Option<(ImageContent, u32)>)
    ensures
        r == spec_check_classification(c),
{
    match c.metric {
        FrameLabel::Hentai => if c.score >= FRAME_THRESHOLD {
            Some((ImageContent::Hentai, c.score))
        } else {
            None
        },
        FrameLabel::Porn => if c.score >= FRAME_THRESHOLD {
            Some((ImageContent::Porn, c.score))
        } else {
            None
        },
        FrameLabel::Sexy => if c.score >= FRAME_THRESHOLD {
            Some((ImageContent::Sexy, c.score))
        } else {
            None
        },
        FrameLabel::Drawings => None,
        FrameLabel::Neutral => None,
    }
}

/// The first qualifying classification of a frame, in enumeration order.
pub open spec fn spec_first_qualifying(scores: Seq<Classification>) -> Option<(ImageContent, u32)>
    decreases scores.len(),
{
    if scores.len() == 0 {
        None
    } else {
        match spec_check_classification(scores[0]) {
            Some(v) => Some(v),
            None => spec_first_qualifying(scores.drop_first()),
        }
    }
}

/// The single-image policy: report the first label whose score meets the
/// single-frame threshold, or nothing.
pub fn classify_single_frame(scores: &Vec<Classification>) -> (r: Option<(ImageContent, u32)>)
    ensures
        r == spec_first_qualifying(scores@),
{
    let mut i: usize = 0;
    proof {
        assert(scores@.skip(0) =~= scores@);
    }
    while i < scores.len()
        invariant
            i <= scores@.len(),
            spec_first_qualifying(scores@) == spec_first_qualifying(scores@.skip(i as int)),
        decreases scores@.len() - i,
    {
        proof {
            assert(scores@.skip(i as int)[0] == scores@[i as int]);
            assert(scores@.skip(i as int).drop_first() =~= scores@.skip(i + 1));
        }
        match check_classification(scores[i]) {
            Some(v) => {
                return Some(v);
            },
            None => {},
        }
        i += 1;
    }
    None
}

/// A frame's scores as the classifier hands them over: one entry per
/// label of the fixed set, none above a confidence of 1.0.
pub open spec fn spec_scores_ok(scores: Seq<Classification>) -> bool {
    &&& scores.len() <= LABEL_COUNT
    &&& forall|i: int| 0 <= i < scores.len() ==> (#[trigger] scores[i]).score <= SCORE_ONE
}

/// A frame's qualifying list as the multi-frame policy accumulates it.
pub open spec fn spec_quals_ok(quals: Seq<(ImageContent, u32)>) -> bool {
    &&& quals.len() <= LABEL_COUNT
    &&& forall|i: int| 0 <= i < quals.len() ==> (#[trigger] quals[i]).1 <= SCORE_ONE
}

/// The qualifying entries of one frame's scores, in order.
pub open spec fn spec_qualifying(scores: Seq<Classification>) -> Seq<(ImageContent, u32)>
    decreases scores.len(),
{
    if scores.len() == 0 {
        Seq::empty()
    } else {
        spec_qualifying(scores.drop_last()) + (match spec_check_classification(scores.last()) {
            Some(v) => seq![v],
            None => Seq::empty(),
        })
    }
}

/// The sum of one frame's qualifying scores for one label.
pub open spec fn spec_frame_sum(quals: Seq<(ImageContent, u32)>, label: ImageContent) -> int
    decreases quals.len(),
{
    if quals.len() == 0 {
        0
    } else {
        spec_frame_sum(quals.drop_last(), label) + (if quals.last().0 == label {
            quals.last().1 as int
        } else {
            0
        })
    }
}

/// The sum of all frames' qualifying scores for one label.
pub open spec fn spec_label_sum(frames: Seq<Seq<(ImageContent, u32)>>, label: ImageContent) -> int
    decreases frames.len(),
{
    if frames.len() == 0 {
        0
    } else {
        spec_label_sum(frames.drop_last(), label) + spec_frame_sum(frames.last(), label)
    }
}

/// A label is decided once its accumulated sum reaches the
/// running-average threshold times the number of frames seen: that is,
/// once the average over all frames seen reaches the threshold, equality
/// included.
pub open spec fn spec_label_decided(
    frames: Seq<Seq<(ImageContent, u32)>>,
    num_frames: nat,
    label: ImageContent,
) -> bool {
    spec_label_sum(frames, label) >= AVERAGE_THRESHOLD * num_frames
}

/// The multi-frame decision: with no frames seen there is no verdict;
/// otherwise the first decided label wins, with its average in basis
/// points (rounded down).
pub open spec fn spec_average_decision(
    frames: Seq<Seq<(ImageContent, u32)>>,
    num_frames: nat,
) -> Option<(ImageContent, u32)> {
    if num_frames == 0 {
        None
    } else if spec_label_decided(frames, num_frames, ImageContent::Hentai) {
        Some(
            (
                ImageContent::Hentai,
                (spec_label_sum(frames, ImageContent::Hentai) / num_frames as int) as u32,
            ),
        )
    } else if spec_label_decided(frames, num_frames, ImageContent::Porn) {
        Some(
            (
                ImageContent::Porn,
                (spec_label_sum(frames, ImageContent::Porn) / num_frames as int) as u32,
            ),
        )
    } else if spec_label_decided(frames, num_frames, ImageContent::Sexy) {
        Some(
            (
                ImageContent::Sexy,
                (spec_label_sum(frames, ImageContent::Sexy) / num_frames as int) as u32,
            ),
        )
    } else {
        None
    }
}

/// A frame's qualifying sum for a label never exceeds one full score per
/// label-set entry.
proof fn lemma_frame_sum_bound(quals: Seq<(ImageContent, u32)>, label: ImageContent)
    requires
        spec_quals_ok(quals),
    ensures
        0 <= spec_frame_sum(quals, label) <= SCORE_ONE * quals.len(),
    decreases quals.len(),
{
    if quals.len() == 0 {
    } else {
        assert(spec_quals_ok(quals.drop_last()));
        lemma_frame_sum_bound(quals.drop_last(), label);
    }
}

/// The accumulated sum for a label is bounded by one full score per
/// label-set entry per frame.
proof fn lemma_label_sum_bound(frames: Seq<Seq<(ImageContent, u32)>>, label: ImageContent)
    requires
        forall|i: int| 0 <= i < frames.len() ==> spec_quals_ok(#[trigger] frames[i]),
    ensures
        0 <= spec_label_sum(frames, label) <= SCORE_ONE * LABEL_COUNT * frames.len(),
    decreases frames.len(),
{
    if frames.len() == 0 {
    } else {
        assert(forall|i: int|
            0 <= i < frames.drop_last().len() ==> spec_quals_ok(#[trigger] frames.drop_last()[i]));
        lemma_label_sum_bound(frames.drop_last(), label);
        assert(frames.last() == frames[frames.len() - 1]);
        lemma_frame_sum_bound(frames.last(), label);
        assert(spec_frame_sum(frames.last(), label) <= SCORE_ONE * LABEL_COUNT) by {
            assert(SCORE_ONE * frames.last().len() <= SCORE_ONE * LABEL_COUNT) by (nonlinear_arith)
                requires
                    frames.last().len() <= LABEL_COUNT,
            ;
        }
        assert(SCORE_ONE * LABEL_COUNT * frames.drop_last().len() + SCORE_ONE * LABEL_COUNT
            == SCORE_ONE * LABEL_COUNT * frames.len()) by (nonlinear_arith)
            requires
                frames.drop_last().len() == frames.len() - 1,
        ;
    }
}

/// Accumulated sums add across batches: folding batch after batch into
/// the running aggregate reaches the same sums as one pass over the
/// flattened whole, so the running-average decision is the same either
/// way.
pub proof fn lemma_label_sum_concat(
    d1: Seq<Seq<(ImageContent, u32)>>,
    d2: Seq<Seq<(ImageContent, u32)>>,
    label: ImageContent,
)
    ensures
        spec_label_sum(d1 + d2, label) == spec_label_sum(d1, label) + spec_label_sum(d2, label),
    decreases d2.len(),
{
    if d2.len() == 0 {
        assert(d1 + d2 =~= d1);
    } else {
        lemma_label_sum_concat(d1, d2.drop_last(), label);
        assert((d1 + d2).drop_last() =~= d1 + d2.drop_last());
        assert((d1 + d2).last() == d2.last());
    }
}

/// The multi-frame policy: sums each label's qualifying scores over all
/// frames and reports the first label whose running average reaches the
/// threshold, with that average.
pub fn average_classification(
    frame_data: &Vec<Vec<(ImageContent, u32)>>,
    num_frames: usize,
) -> (r: Option<(ImageContent, u32)>)
    requires
        forall|i: int|
            0 <= i < frame_data@.len() ==> spec_quals_ok((#[trigger] frame_data@[i])@),
        frame_data@.len() <= num_frames,
        num_frames <= 1_000_000_000_000,
    ensures
        r == spec_average_decision(frame_data@.map_values(|v: Vec<(ImageContent, u32)>| v@),
            num_frames as nat),
{
    let ghost fv = frame_data@.map_values(|v: Vec<(ImageContent, u32)>| v@);
    let mut hentai_sum: u64 = 0;
    let mut porn_sum: u64 = 0;
    let mut sexy_sum: u64 = 0;
    let mut i: usize = 0;
    while i < frame_data.len()
        invariant
            i <= frame_data@.len(),
            fv == frame_data@.map_values(|v: Vec<(ImageContent, u32)>| v@),
            fv.len() == frame_data@.len(),
            forall|k: int| 0 <= k < fv.len() ==> spec_quals_ok(#[trigger] fv[k]),
            frame_data@.len() <= num_frames <= 1_000_000_000_000,
            hentai_sum == spec_label_sum(fv.take(i as int), ImageContent::Hentai),
            porn_sum == spec_label_sum(fv.take(i as int), ImageContent::Porn),
            sexy_sum == spec_label_sum(fv.take(i as int), ImageContent::Sexy),
        decreases frame_data@.len() - i,
    {
        proof {
            assert(fv[i as int] == frame_data@[i as int]@);
            assert(forall|k: int|
                0 <= k < fv.take(i as int).len() ==> spec_quals_ok(
                    #[trigger] fv.take(i as int)[k],
                ));
            lemma_label_sum_bound(fv.take(i as int), ImageContent::Hentai);
            lemma_label_sum_bound(fv.take(i as int), ImageContent::Porn);
            lemma_label_sum_bound(fv.take(i as int), ImageContent::Sexy);
            assert(SCORE_ONE * LABEL_COUNT * fv.take(i as int).len() <= SCORE_ONE * LABEL_COUNT
                * 1_000_000_000_000) by (nonlinear_arith)
                requires
                    0 <= fv.take(i as int).len() <= 1_000_000_000_000,
            ;
        }
        let quals = &frame_data[i];
        let ghost q = quals@;
        let mut h: u64 = 0;
        let mut p: u64 = 0;
        let mut x: u64 = 0;
        let mut j: usize = 0;
        while j < quals.len()
            invariant
                j <= q.len(),
                q == quals@,
                spec_quals_ok(q),
                h == spec_frame_sum(q.take(j as int), ImageContent::Hentai),
                p == spec_frame_sum(q.take(j as int), ImageContent::Porn),
                x == spec_frame_sum(q.take(j as int), ImageContent::Sexy),
            decreases q.len() - j,
        {
            proof {
                assert(spec_quals_ok(q.take(j as int)));
                lemma_frame_sum_bound(q.take(j as int), ImageContent::Hentai);
                lemma_frame_sum_bound(q.take(j as int), ImageContent::Porn);
                lemma_frame_sum_bound(q.take(j as int), ImageContent::Sexy);
                assert(SCORE_ONE * q.take(j as int).len() <= SCORE_ONE * LABEL_COUNT)
                    by (nonlinear_arith)
                    requires
                        0 <= q.take(j as int).len() <= LABEL_COUNT,
                ;
                assert(q.take(j + 1).drop_last() =~= q.take(j as int));
                assert(q.take(j + 1).last() == q[j as int]);
            }
            let (label, score) = quals[j];
            match label {
                ImageContent::Hentai => {
                    h = h + score as u64;
                },
                ImageContent::Porn => {
                    p = p + score as u64;
                },
                ImageContent::Sexy => {
                    x = x + score as u64;
                },
            }
            j += 1;
        }
        proof {
            assert(q.take(q.len() as int) =~= q);
            assert(fv.take(i + 1).drop_last() =~= fv.take(i as int));
            assert(fv.take(i + 1).last() == fv[i as int]);
            lemma_frame_sum_bound(q, ImageContent::Hentai);
            lemma_frame_sum_bound(q, ImageContent::Porn);
            lemma_frame_sum_bound(q, ImageContent::Sexy);
            assert(SCORE_ONE * q.len() <= SCORE_ONE * LABEL_COUNT) by (nonlinear_arith)
                requires
                    0 <= q.len() <= LABEL_COUNT,
            ;
        }
        hentai_sum = hentai_sum + h;
        porn_sum = porn_sum + p;
        sexy_sum = sexy_sum + x;
        i += 1;
    }
    proof {
        assert(fv.take(fv.len() as int) =~= fv);
    }
    if num_frames == 0 {
        return None;
    }
    let n64 = num_frames as u64;
    proof {
        assert(AVERAGE_THRESHOLD == 9000);
        assert((AVERAGE_THRESHOLD as u64) * n64 <= 9_000_000_000_000_000) by (nonlinear_arith)
            requires
                n64 <= 1_000_000_000_000 && AVERAGE_THRESHOLD == 9000,
        ;
    }
    let threshold = (AVERAGE_THRESHOLD as u64) * n64;
    proof {
        lemma_label_sum_bound(fv, ImageContent::Hentai);
        lemma_label_sum_bound(fv, ImageContent::Porn);
        lemma_label_sum_bound(fv, ImageContent::Sexy);
        lemma_avg_fits(hentai_sum as int, num_frames as int, fv.len() as int);
        lemma_avg_fits(porn_sum as int, num_frames as int, fv.len() as int);
        lemma_avg_fits(sexy_sum as int, num_frames as int, fv.len() as int);
    }
    if hentai_sum >= threshold {
        return Some((ImageContent::Hentai, (hentai_sum / n64) as u32));
    }
    if porn_sum >= threshold {
        return Some((ImageContent::Porn, (porn_sum / n64) as u32));
    }
    if sexy_sum >= threshold {
        return Some((ImageContent::Sexy, (sexy_sum / n64) as u32));
    }
    None
}

/// An average over at least as many frames as contributed fits well
/// within a score's range.
proof fn lemma_avg_fits(sum: int, n: int, len: int)
    requires
        0 <= sum <= SCORE_ONE * LABEL_COUNT * len,
        0 <= len <= n,
        1 <= n,
    ensures
        0 <= sum / n <= SCORE_ONE * LABEL_COUNT,
{
    assert(SCORE_ONE * LABEL_COUNT * len <= SCORE_ONE * LABEL_COUNT * n) by (nonlinear_arith)
        requires
            0 <= len <= n,
    ;
    lemma_div_is_ordered(sum, SCORE_ONE * LABEL_COUNT * n, n);
    assert(SCORE_ONE * LABEL_COUNT * n == n * (SCORE_ONE * LABEL_COUNT)) by (nonlinear_arith);
    lemma_div_multiples_vanish(SCORE_ONE * LABEL_COUNT, n);
    assert(sum / n >= 0) by (nonlinear_arith)
        requires
            sum >= 0,
            n >= 1,
    ;
}

/// The single-frame filter keeps a frame's qualifying list within the
/// label set's size and the score range.
proof fn lemma_qualifying_ok(scores: Seq<Classification>)
    requires
        spec_scores_ok(scores),
    ensures
        spec_quals_ok(spec_qualifying(scores)),
        spec_qualifying(scores).len() <= scores.len(),
    decreases scores.len(),
{
    if scores.len() == 0 {
    } else {
        assert(spec_scores_ok(scores.drop_last()));
        lemma_qualifying_ok(scores.drop_last());
        assert(scores.last() == scores[scores.len() - 1]);
    }
}

/// The multi-frame policy over whole frames: filters each frame's scores
/// through the single-frame filter, then decides by running average with
/// every frame counted.
pub fn classify_multi_frame(frames: &Vec<Vec<Classification>>) -> (r: Option<(ImageContent, u32)>)
    requires
        forall|i: int| 0 <= i < frames@.len() ==> spec_scores_ok((#[trigger] frames@[i])@),
        frames@.len() <= 1_000_000_000_000,
    ensures
        r == spec_average_decision(
            frames@.map_values(|v: Vec<Classification>| spec_qualifying(v@)),
            frames@.len() as nat,
        ),
{
    let ghost target = frames@.map_values(|v: Vec<Classification>| spec_qualifying(v@));
    let mut quals: Vec<Vec<(ImageContent, u32)>> = Vec::new();
    let mut i: usize = 0;
    while i < frames.len()
        invariant
            i <= frames@.len(),
            target == frames@.map_values(|v: Vec<Classification>| spec_qualifying(v@)),
            forall|k: int| 0 <= k < frames@.len() ==> spec_scores_ok((#[trigger] frames@[k])@),
            quals@.len() == i,
            forall|k: int| 0 <= k < i ==> (#[trigger] quals@[k])@ == target[k],
        decreases frames@.len() - i,
    {
        let scores = &frames[i];
        let ghost sv = scores@;
        let mut q: Vec<(ImageContent, u32)> = Vec::new();
        let mut j: usize = 0;
        proof {
            assert(spec_qualifying(sv.take(0)) =~= Seq::<(ImageContent, u32)>::empty());
        }
        while j < scores.len()
            invariant
                j <= sv.len(),
                sv == scores@,
                q@ == spec_qualifying(sv.take(j as int)),
            decreases sv.len() - j,
        {
            proof {
                assert(sv.take(j + 1).drop_last() =~= sv.take(j as int));
                assert(sv.take(j + 1).last() == sv[j as int]);
            }
            match check_classification(scores[j]) {
                Some(v) => {
                    q.push(v);
                    proof {
                        assert(q@ =~= spec_qualifying(sv.take(j + 1)));
                    }
                },
                None => {},
            }
            j += 1;
        }
        proof {
            assert(sv.take(sv.len() as int) =~= sv);
            assert(target[i as int] == spec_qualifying(frames@[i as int]@));
        }
        quals.push(q);
        i += 1;
    }
    proof {
        assert(quals@.map_values(|v: Vec<(ImageContent, u32)>| v@) =~= target);
        assert forall|k: int| 0 <= k < quals@.len() implies spec_quals_ok(
            (#[trigger] quals@[k])@,
        ) by {
            lemma_qualifying_ok(frames@[k]@);
        }
    }
    average_classification(&quals, quals.len())
}

/// A frame whose score stands exactly at the single-frame threshold
/// still qualifies: the filter compares with at-least, not
/// strictly-greater.
pub proof fn lemma_single_threshold_boundary(c: Classification)
    requires
        c.metric == FrameLabel::Hentai || c.metric == FrameLabel::Porn || c.metric
            == FrameLabel::Sexy,
        c.score == FRAME_THRESHOLD,
    ensures
        spec_check_classification(c) is Some,
{
}

/// An accumulated sum that stands exactly at the running-average
/// threshold times the frame count still decides: the comparison is
/// at-least, not strictly-greater.
pub proof fn lemma_average_threshold_boundary(
    frames: Seq<Seq<(ImageContent, u32)>>,
    num_frames: nat,
    label: ImageContent,
)
    requires
        num_frames > 0,
        spec_label_sum(frames, label) == AVERAGE_THRESHOLD * num_frames,
    ensures
        spec_average_decision(frames, num_frames) is Some,
{
    assert(spec_label_decided(frames, num_frames, label));
}

/// The video batching rule: buffered frames are classified as a batch
/// once the decode stream has nothing ready or more than a batch's
/// worth has accumulated.
pub fn should_flush(buffered: usize, stream_empty: bool) -> (b: bool)
    ensures
        b == (stream_empty || buffered > BATCH_SIZE),
{
    stream_empty || buffered > BATCH_SIZE
}

} // verus!
