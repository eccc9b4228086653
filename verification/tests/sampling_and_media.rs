//! Frame sampling, media routing and the first-verdict reduction.

use potatomod::first_verdict;
use potatomod::nearest_bigger_div_by_8;
use potatomod::route_media;
use potatomod::sample_stride;
use potatomod::should_forward;
use potatomod::ImageContent;
use potatomod::MediaKind;
use potatomod::MediaSource;
use potatomod::MediaVerdict;

fn forwarded_count(total: u64) -> u64 {
    let stride = sample_stride(total);
    let mut count = 0;
    let mut i = 0;
    while i < total {
        if should_forward(i, stride) {
            count += 1;
        }
        i += 1;
    }
    count
}

#[test]
fn stride_formula() {
    assert_eq!(sample_stride(0), 1);
    assert_eq!(sample_stride(499), 1);
    assert_eq!(sample_stride(500), 1);
    assert_eq!(sample_stride(999), 1);
    assert_eq!(sample_stride(1000), 2);
    assert_eq!(sample_stride(100000), 200);
}

#[test]
fn thousand_frame_video_forwards_five_hundred() {
    assert_eq!(forwarded_count(1000), 500);
}

#[test]
fn forwarded_frames_stay_bounded() {
    // The general bound: never more than 999, whatever the length.
    assert_eq!(forwarded_count(999), 999);
    assert_eq!(forwarded_count(100000), 500);
    assert!(forwarded_count(12345) <= 999);
    // Counts whose remainder by 500 is at most their quotient meet the
    // tighter bound of 501.
    assert!(forwarded_count(25010) <= 501);
}

#[test]
fn dimensions_round_up_to_multiple_of_8() {
    assert_eq!(nearest_bigger_div_by_8(0), 0);
    assert_eq!(nearest_bigger_div_by_8(1), 8);
    assert_eq!(nearest_bigger_div_by_8(8), 8);
    assert_eq!(nearest_bigger_div_by_8(9), 16);
    assert_eq!(nearest_bigger_div_by_8(1920), 1920);
    assert_eq!(nearest_bigger_div_by_8(1081), 1088);
}

#[test]
fn routing_follows_type_and_suffix() {
    assert_eq!(
        route_media(MediaSource::EmbedVideo, None, "https://cdn.example/clip"),
        Some(MediaKind::Video)
    );
    assert_eq!(
        route_media(MediaSource::EmbedThumbnail, None, "https://cdn.example/pic.png"),
        Some(MediaKind::Image)
    );
    assert_eq!(
        route_media(MediaSource::EmbedThumbnail, None, "https://cdn.example/anim.gif"),
        Some(MediaKind::Gif)
    );
    assert_eq!(
        route_media(MediaSource::EmbedThumbnail, None, "https://cdn.example/clip.webm"),
        Some(MediaKind::Video)
    );
    assert_eq!(
        route_media(MediaSource::Attachment, Some("image/gif"), "https://cdn.example/a"),
        Some(MediaKind::Gif)
    );
    assert_eq!(
        route_media(MediaSource::Attachment, Some("video/mp4"), "https://cdn.example/a"),
        Some(MediaKind::Video)
    );
    assert_eq!(
        route_media(MediaSource::Attachment, Some("image/png"), "https://cdn.example/a.mp4"),
        Some(MediaKind::Video)
    );
    assert_eq!(
        route_media(MediaSource::Attachment, Some("image/png"), "https://cdn.example/a.png"),
        Some(MediaKind::Image)
    );
    assert_eq!(
        route_media(MediaSource::Attachment, Some("text/plain"), "https://cdn.example/a"),
        None
    );
    assert_eq!(route_media(MediaSource::Attachment, None, "https://cdn.example/a"), None);
}

#[test]
fn first_verdict_takes_first_populated() {
    let mut results = vec![
        None,
        Some(MediaVerdict {
            label: ImageContent::Porn,
            score: 9100,
            url: String::from("https://cdn.example/one"),
        }),
        Some(MediaVerdict {
            label: ImageContent::Sexy,
            score: 8700,
            url: String::from("https://cdn.example/two"),
        }),
    ];
    let v = first_verdict(&mut results).expect("a verdict");
    assert_eq!(v.label, ImageContent::Porn);
    assert_eq!(v.score, 9100);
    assert_eq!(v.url, "https://cdn.example/one");
}

#[test]
fn first_verdict_none_when_all_items_clean() {
    let mut results: Vec<Option<MediaVerdict>> = vec![None, None, None];
    assert!(first_verdict(&mut results).is_none());
}
