//! The score-aggregation policies on concrete frames.

use potatomod::average_classification;
use potatomod::check_classification;
use potatomod::classify_multi_frame;
use potatomod::classify_single_frame;
use potatomod::should_flush;
use potatomod::Classification;
use potatomod::FrameLabel;
use potatomod::ImageContent;

#[test]
fn single_frame_threshold_is_inclusive() {
    // Exactly at the 0.85 threshold counts as a violation.
    let at = Classification { metric: FrameLabel::Porn, score: 8500 };
    assert_eq!(check_classification(at), Some((ImageContent::Porn, 8500)));
    let below = Classification { metric: FrameLabel::Porn, score: 8499 };
    assert_eq!(check_classification(below), None);
}

#[test]
fn drawings_and_neutral_never_qualify() {
    let drawing = Classification { metric: FrameLabel::Drawings, score: 10000 };
    let neutral = Classification { metric: FrameLabel::Neutral, score: 10000 };
    assert_eq!(check_classification(drawing), None);
    assert_eq!(check_classification(neutral), None);
}

#[test]
fn single_image_first_match_wins() {
    let scores = vec![
        Classification { metric: FrameLabel::Drawings, score: 9999 },
        Classification { metric: FrameLabel::Hentai, score: 8000 },
        Classification { metric: FrameLabel::Sexy, score: 8600 },
        Classification { metric: FrameLabel::Porn, score: 9000 },
    ];
    // Sexy is the first label over the threshold in enumeration order.
    assert_eq!(classify_single_frame(&scores), Some((ImageContent::Sexy, 8600)));
}

#[test]
fn single_image_porn_at_ninety_percent() {
    let scores = vec![Classification { metric: FrameLabel::Porn, score: 9000 }];
    assert_eq!(classify_single_frame(&scores), Some((ImageContent::Porn, 9000)));
}

#[test]
fn average_threshold_is_inclusive() {
    // Two frames, sum exactly 0.9 * 2: equality still decides.
    let quals = vec![
        vec![(ImageContent::Porn, 9500)],
        vec![(ImageContent::Porn, 8500)],
    ];
    assert_eq!(average_classification(&quals, 2), Some((ImageContent::Porn, 9000)));
    // One basis point under the threshold does not.
    let under = vec![
        vec![(ImageContent::Porn, 9500)],
        vec![(ImageContent::Porn, 8499)],
    ];
    assert_eq!(average_classification(&under, 2), None);
}

#[test]
fn average_counts_indifferent_frames() {
    // A single early burst is diluted by frames that qualified nowhere.
    let quals = vec![
        vec![(ImageContent::Hentai, 10000)],
        vec![],
        vec![],
    ];
    assert_eq!(average_classification(&quals, 3), None);
}

#[test]
fn aggregator_idempotent() {
    // Re-evaluating the same accumulated set with the same frame total
    // gives the same decision as the first evaluation.
    let quals = vec![
        vec![(ImageContent::Porn, 9500)],
        vec![(ImageContent::Porn, 9400)],
    ];
    let first = average_classification(&quals, 2);
    let second = average_classification(&quals, 2);
    assert_eq!(first, second);
    assert_eq!(first, Some((ImageContent::Porn, 9450)));
}

#[test]
fn aggregator_empty_has_no_verdict() {
    let quals: Vec<Vec<(ImageContent, u32)>> = vec![];
    assert_eq!(average_classification(&quals, 0), None);
}

#[test]
fn multi_frame_gif_decides_on_sustained_scores() {
    let frames = vec![
        vec![Classification { metric: FrameLabel::Hentai, score: 9500 }],
        vec![Classification { metric: FrameLabel::Hentai, score: 9300 }],
    ];
    assert_eq!(classify_multi_frame(&frames), Some((ImageContent::Hentai, 9400)));
}

#[test]
fn multi_frame_neutral_video_has_no_verdict() {
    // A long clip whose sampled frames all score Neutral ends clean.
    let mut frames = Vec::new();
    for _ in 0..500 {
        frames.push(vec![Classification { metric: FrameLabel::Neutral, score: 9990 }]);
    }
    assert_eq!(classify_multi_frame(&frames), None);
}

#[test]
fn flush_on_empty_stream_or_full_batch() {
    assert!(should_flush(0, true));
    assert!(should_flush(31, false));
    assert!(!should_flush(30, false));
    assert!(!should_flush(1, false));
}
