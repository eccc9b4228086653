//! Full-pipeline scenarios: from a message or a frame to a case.

use potatomod::check_is_phishing_link;
use potatomod::classify_single_frame;
use potatomod::message_verdict;
use potatomod::reason_string;
use potatomod::CaseAction;
use potatomod::CaseState;
use potatomod::Classification;
use potatomod::FrameLabel;
use potatomod::ImageContent;
use potatomod::MediaVerdict;
use potatomod::ModerationCase;
use potatomod::RejectionReason;
use potatomod::SpamReason;

#[test]
fn gift_link_with_foreign_domain_is_phishing() {
    assert_eq!(
        check_is_phishing_link("grab it at https://freebie.gift/claim now"),
        Some(SpamReason::Phishing)
    );
}

#[test]
fn sexual_terms_match_case_insensitively() {
    assert_eq!(
        check_is_phishing_link("discord.gg/abc ONLYFANS content"),
        Some(SpamReason::SexRelatedTerms)
    );
}

#[test]
fn empty_message_is_clean() {
    assert_eq!(check_is_phishing_link(""), None);
}

#[test]
fn reason_names_match_labels() {
    assert_eq!(SpamReason::Phishing.as_str(), "Phishing with free terms");
    assert_eq!(ImageContent::Hentai.as_str(), "Hentai image content");
}

#[test]
fn porn_image_opens_case_with_percent_reason() {
    // One frame scoring Porn at 0.9 yields the media verdict, the
    // message verdict, and a case whose report names the confidence.
    let scores = vec![Classification { metric: FrameLabel::Porn, score: 9000 }];
    let (label, score) = classify_single_frame(&scores).expect("frame must qualify");
    let media = MediaVerdict { label, score, url: String::from("https://cdn.example/evidence") };
    let reason = message_verdict(None, Some(media)).expect("verdict must open a case");
    assert_eq!(reason_string(&reason), "Porn image content - 90%");
    let (case, actions) = ModerationCase::open_case(42, reason);
    assert_eq!(case.state, CaseState::AwaitingModeratorDecision);
    assert_eq!(actions[0], CaseAction::ArchiveMedia);
}

#[test]
fn clean_message_with_plain_discord_link_opens_no_case() {
    let text = check_is_phishing_link("hello https://discord.com/test-url-blah i am here");
    assert_eq!(text, None);
    assert!(message_verdict(text, None).is_none());
}
