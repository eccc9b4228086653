//! Media candidate enumeration and routing.
//!
//! A message's media set is screened concurrently by the caller; this
//! module decides, once per item, which decode path a candidate takes —
//! image, GIF or video — from where it was found, its declared content
//! type and its URL, and reduces the per-item outcomes to the message's
//! first verdict.

use crate::classify::ImageContent;
use crate::scan;
use crate::scan::matches_at;
use vstd::prelude::*;

verus! {

/// The decode path a media candidate takes.
#[derive(Copy, Clone, PartialEq, Eq, Debug, Structural)]
pub enum MediaKind {
    Image,
    Gif,
    Video,
}

/// Where a media candidate was found in the message.
#[derive(Copy, Clone, PartialEq, Eq, Debug, Structural)]
pub enum MediaSource {
    EmbedThumbnail,
    EmbedVideo,
    Attachment,
}

/// A media item found in violation: the content class, the confidence in
/// basis points, and the source URL so the evidence can be archived.
pub struct MediaVerdict {
    pub label: ImageContent,
    pub score: u32,
    pub url: String,
}

/// `s` starts with `pat`.
pub open spec fn spec_starts_with(s: Seq<char>, pat: Seq<char>) -> bool {
    matches_at(s, pat, 0)
}

/// `s` ends with `pat`.
pub open spec fn spec_ends_with(s: Seq<char>, pat: Seq<char>) -> bool {
    matches_at(s, pat, s.len() - pat.len())
}

/// The path an image-typed candidate takes, decided by its URL's suffix.
pub open spec fn spec_suffix_kind(url: Seq<char>) -> MediaKind {
    if spec_ends_with(url, ".gif"@) {
        MediaKind::Gif
    } else if spec_ends_with(url, ".webm"@) || spec_ends_with(url, ".mp4"@) {
        MediaKind::Video
    } else {
        MediaKind::Image
    }
}

/// Which path a candidate takes, or `None` for an attachment that is not
/// media: embedded videos take the video path; embedded thumbnails go by
/// their URL's suffix; an attachment declared exactly `image/gif` takes
/// the GIF path, a `video`-typed one the video path, and an
/// `image`-typed one goes by its URL's suffix.
pub open spec fn spec_route(
    source: MediaSource,
    content_type: Option<Seq<char>>,
    url: Seq<char>,
) -> Option<MediaKind> {
    match source {
        MediaSource::EmbedVideo => Some(MediaKind::Video),
        MediaSource::EmbedThumbnail => Some(spec_suffix_kind(url)),
        MediaSource::Attachment => match content_type {
            Some(ct) => if ct == "image/gif"@ {
                Some(MediaKind::Gif)
            } else if spec_starts_with(ct, "video"@) {
                Some(MediaKind::Video)
            } else if spec_starts_with(ct, "image"@) {
                Some(spec_suffix_kind(url))
            } else {
                None
            },
            None => None,
        },
    }
}

/// The view of an optional declared content type.
pub open spec fn spec_opt_view(content_type: Option<&str>) -> Option<Seq<char>> {
    match content_type {
        Some(ct) => Some(ct@),
        None => None,
    }
}

fn suffix_kind(url_chars: &Vec<char>) -> (k: MediaKind)
    ensures
        k == spec_suffix_kind(url_chars@),
{
    let gif = scan::to_chars(".gif");
    let webm = scan::to_chars(".webm");
    let mp4 = scan::to_chars(".mp4");
    if scan::ends_with(url_chars, &gif) {
        MediaKind::Gif
    } else if scan::ends_with(url_chars, &webm) || scan::ends_with(url_chars, &mp4) {
        MediaKind::Video
    } else {
        MediaKind::Image
    }
}

/// Decides, once per candidate, which decode path it takes.
pub fn route_media(source: MediaSource, content_type: Option<&str>, url: &str) -> (r: Option<
    MediaKind,
>)
    ensures
        r == spec_route(source, spec_opt_view(content_type), url@),
{
    match source {
        MediaSource::EmbedVideo => Some(MediaKind::Video),
        MediaSource::EmbedThumbnail => {
            let url_chars = scan::to_chars(url);
            Some(suffix_kind(&url_chars))
        },
        MediaSource::Attachment => match content_type {
            Some(ct) => {
                let ct_chars = scan::to_chars(ct);
                let image_gif = scan::to_chars("image/gif");
                let video = scan::to_chars("video");
                let image = scan::to_chars("image");
                if scan::vec_eq(&ct_chars, &image_gif) {
                    Some(MediaKind::Gif)
                } else if scan::starts_with(&ct_chars, &video) {
                    Some(MediaKind::Video)
                } else if scan::starts_with(&ct_chars, &image) {
                    let url_chars = scan::to_chars(url);
                    Some(suffix_kind(&url_chars))
                } else {
                    None
                }
            },
            None => None,
        },
    }
}

/// The first populated verdict among the per-item outcomes, in order.
pub open spec fn spec_first_some(results: Seq<Option<MediaVerdict>>) -> Option<MediaVerdict>
    decreases results.len(),
{
    if results.len() == 0 {
        None
    } else {
        match results[0] {
            Some(v) => Some(v),
            None => spec_first_some(results.drop_first()),
        }
    }
}

/// Reduces the per-item screening outcomes of a message's media set to
/// one decision for the message, the first `Some` among them, scanning
/// from the front and taking it out of the set.  A failed or clean item
/// never hides a later one that found something.
#[verifier::loop_isolation(false)]
pub fn first_verdict(results: &mut Vec<Option<MediaVerdict>>) -> (r: Option<MediaVerdict>)
    ensures
        r == spec_first_some(old(results)@),
        r is None ==> final(results)@ == old(results)@,
        r is Some ==> exists|i: int|
            0 <= i < old(results)@.len() && old(results)@[i] == r && (forall|k: int|
                0 <= k < i ==> old(results)@[k] is None) && final(results)@ == old(
                results,
            )@.remove(i),
{
    let ghost orig = results@;
    let work = results;
    let mut i: usize = 0;
    proof {
        assert(orig.skip(0) =~= orig);
    }
    while i < work.len()
        invariant
            i <= orig.len(),
            orig == work@,
            spec_first_some(orig) == spec_first_some(orig.skip(i as int)),
            forall|k: int| 0 <= k < i ==> orig[k] is None,
        decreases orig.len() - i,
    {
        proof {
            assert(orig.skip(i as int)[0] == orig[i as int]);
            assert(orig.skip(i as int).drop_first() =~= orig.skip(i + 1));
        }
        let found = work[i].is_some();
        if found {
            let v = work.remove(i);
            proof {
                assert(spec_first_some(orig.skip(i as int)) == orig[i as int]);
                assert(0 <= i < orig.len() && orig[i as int] == v && (forall|k: int|
                    0 <= k < i ==> orig[k] is None) && work@ == orig.remove(i as int));
            }
            return v;
        }
        i += 1;
    }
    None
}

} // verus!
