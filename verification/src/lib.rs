//! Decision core of a chat-moderation pipeline.
//!
//! The library screens messages for two threat classes: misleading or
//! phishing links (a text heuristic over the message content) and sexual
//! imagery or video (a per-frame classifier whose scores are reduced to a
//! single verdict).  A positive verdict opens a moderation case that mutes
//! the author and walks a moderator through a bounded-time resolution.
//!
//! Everything here is pure decision logic over plain values; the network,
//! the chat platform and the media decoders live outside and hand their
//! results in as arguments.

pub mod allowlist;
pub mod case;
pub mod classify;
pub mod distance;
pub mod media;
pub mod purge;
pub mod sampling;
pub mod scan;
pub mod text;

pub use allowlist::has_trusted_role;
pub use allowlist::AllowList;
pub use allowlist::AllowListEntry;
pub use case::message_verdict;
pub use case::parse_interaction;
pub use case::reason_string;
pub use case::CaseAction;
pub use case::CaseEvent;
pub use case::CaseState;
pub use case::InteractionKind;
pub use case::ModerationCase;
pub use case::RejectionReason;
pub use case::Resolution;
pub use classify::average_classification;
pub use classify::check_classification;
pub use classify::classify_multi_frame;
pub use classify::classify_single_frame;
pub use classify::should_flush;
pub use classify::Classification;
pub use classify::FrameLabel;
pub use classify::ImageContent;
pub use media::first_verdict;
pub use media::route_media;
pub use media::MediaKind;
pub use media::MediaSource;
pub use media::MediaVerdict;
pub use purge::message_matches_search;
pub use purge::within_purge_window;
pub use sampling::nearest_bigger_div_by_8;
pub use sampling::sample_stride;
pub use sampling::should_forward;
pub use text::check_is_phishing_link;
pub use text::SpamReason;
