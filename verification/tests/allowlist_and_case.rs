//! The exemption store and the moderation case on concrete runs.

use potatomod::has_trusted_role;
use potatomod::message_matches_search;
use potatomod::message_verdict;
use potatomod::parse_interaction;
use potatomod::reason_string;
use potatomod::within_purge_window;
use potatomod::AllowList;
use potatomod::CaseAction;
use potatomod::CaseEvent;
use potatomod::CaseState;
use potatomod::ImageContent;
use potatomod::InteractionKind;
use potatomod::MediaVerdict;
use potatomod::ModerationCase;
use potatomod::RejectionReason;
use potatomod::Resolution;
use potatomod::SpamReason;

#[test]
fn bots_and_trusted_roles_are_exempt() {
    let mut list = AllowList::new();
    let roles = vec![7u64, 9u64];
    let trusted = vec![9u64];
    let no_match = vec![1u64, 2u64];
    assert!(list.is_exempt(42, true, &vec![], &vec![], 0));
    assert!(list.is_exempt(42, false, &roles, &trusted, 0));
    assert!(!list.is_exempt(42, false, &no_match, &trusted, 0));
    assert!(has_trusted_role(&roles, &trusted));
    assert!(!has_trusted_role(&no_match, &trusted));
}

#[test]
fn grant_makes_subject_exempt_until_expiry() {
    let mut list = AllowList::new();
    list.grant(42, 1000);
    assert!(list.is_exempt(42, false, &vec![], &vec![], 999));
    // Exactly at the expiry instant the entry is no longer live.
    assert!(!list.is_exempt(42, false, &vec![], &vec![], 1000));
    assert!(!list.is_exempt(7, false, &vec![], &vec![], 0));
}

#[test]
fn expired_entry_is_removed_by_lookup() {
    let mut list = AllowList::new();
    list.grant(42, 100);
    // A lookup past the expiry sees nothing and evicts the entry ...
    assert!(!list.is_exempt(42, false, &vec![], &vec![], 200));
    // ... so even a lookup with an earlier clock cannot see it again.
    assert!(!list.is_exempt(42, false, &vec![], &vec![], 50));
}

#[test]
fn grant_refreshes_existing_entry() {
    let mut list = AllowList::new();
    list.grant(42, 100);
    list.grant(42, 500);
    assert!(list.is_exempt(42, false, &vec![], &vec![], 300));
    list.grant(42, 200);
    assert!(!list.is_exempt(42, false, &vec![], &vec![], 300));
}

#[test]
fn interactions_parse_by_identifier() {
    assert_eq!(parse_interaction("ban"), InteractionKind::Ban);
    assert_eq!(parse_interaction("unmute"), InteractionKind::Unmute);
    assert_eq!(parse_interaction("tempallowlist"), InteractionKind::TempAllowlist);
    assert_eq!(parse_interaction("something-else"), InteractionKind::Other);
    assert_eq!(parse_interaction(""), InteractionKind::Other);
}

#[test]
fn text_verdict_wins_over_media() {
    let media = Some(MediaVerdict {
        label: ImageContent::Porn,
        score: 9000,
        url: String::from("https://cdn.example/a"),
    });
    match message_verdict(Some(SpamReason::Phishing), media) {
        Some(RejectionReason::SpamReason(SpamReason::Phishing)) => {},
        _ => panic!("text reason must win"),
    }
    assert!(message_verdict(None, None).is_none());
}

#[test]
fn case_opens_with_archive_before_delete_for_media() {
    let media = MediaVerdict {
        label: ImageContent::Porn,
        score: 9000,
        url: String::from("https://cdn.example/a"),
    };
    let (case, actions) = ModerationCase::open_case(42, RejectionReason::ImageReason(media));
    assert_eq!(case.state, CaseState::AwaitingModeratorDecision);
    assert_eq!(
        actions,
        vec![
            CaseAction::ArchiveMedia,
            CaseAction::DeleteMessage,
            CaseAction::ApplyMuteRole,
            CaseAction::PostReport,
        ]
    );
    let (_, text_actions) =
        ModerationCase::open_case(42, RejectionReason::SpamReason(SpamReason::Phishing));
    assert_eq!(
        text_actions,
        vec![CaseAction::DeleteMessage, CaseAction::ApplyMuteRole, CaseAction::PostReport]
    );
}

#[test]
fn ban_resolves_and_logs() {
    let (mut case, _) =
        ModerationCase::open_case(42, RejectionReason::SpamReason(SpamReason::Phishing));
    let actions = case.step(CaseEvent::Interaction(InteractionKind::Ban));
    assert_eq!(case.state, CaseState::Resolved(Resolution::Banned));
    assert_eq!(
        actions,
        vec![
            CaseAction::BanSubject,
            CaseAction::PostModerationLog,
            CaseAction::DeleteArchivedMedia,
        ]
    );
    assert!(case.muted_role_applied);
}

#[test]
fn racing_interactions_resolve_exactly_once() {
    let (mut case, _) =
        ModerationCase::open_case(42, RejectionReason::SpamReason(SpamReason::Phishing));
    let first = case.step(CaseEvent::Interaction(InteractionKind::Unmute));
    assert_eq!(case.state, CaseState::Resolved(Resolution::Unmuted));
    assert!(first.contains(&CaseAction::RemoveMuteRole));
    assert!(!case.muted_role_applied);
    // The losing interaction changes nothing and triggers nothing.
    let second = case.step(CaseEvent::Interaction(InteractionKind::Ban));
    assert_eq!(case.state, CaseState::Resolved(Resolution::Unmuted));
    assert!(second.is_empty());
}

#[test]
fn invalid_interaction_keeps_case_waiting() {
    let (mut case, _) =
        ModerationCase::open_case(42, RejectionReason::SpamReason(SpamReason::Phishing));
    let actions = case.step(CaseEvent::Interaction(InteractionKind::Other));
    assert_eq!(case.state, CaseState::AwaitingModeratorDecision);
    assert_eq!(actions, vec![CaseAction::RespondInvalid]);
    // The wait is not consumed: a later deciding event still resolves.
    let timeout_actions = case.step(CaseEvent::Timeout);
    assert_eq!(case.state, CaseState::Resolved(Resolution::TimedOut));
    assert!(timeout_actions.contains(&CaseAction::RemoveMuteRole));
}

#[test]
fn allowlist_resolution_grants_and_unmutes() {
    let (mut case, _) =
        ModerationCase::open_case(42, RejectionReason::SpamReason(SpamReason::Phishing));
    let actions = case.step(CaseEvent::Interaction(InteractionKind::TempAllowlist));
    assert_eq!(case.state, CaseState::Resolved(Resolution::Allowlisted));
    assert_eq!(
        actions,
        vec![
            CaseAction::GrantAllowlist,
            CaseAction::RemoveMuteRole,
            CaseAction::NotifySubject,
            CaseAction::PostModerationLog,
            CaseAction::DeleteArchivedMedia,
        ]
    );
}

#[test]
fn reason_lines_match_report_format() {
    assert_eq!(
        reason_string(&RejectionReason::SpamReason(SpamReason::SexRelatedTerms)),
        "Sex related terms"
    );
    assert_eq!(
        reason_string(&RejectionReason::SpamReason(SpamReason::UrlDiscordMispell)),
        "Misleading URL"
    );
    let porn = RejectionReason::ImageReason(MediaVerdict {
        label: ImageContent::Porn,
        score: 9000,
        url: String::from("https://cdn.example/a"),
    });
    assert_eq!(reason_string(&porn), "Porn image content - 90%");
    let sexy = RejectionReason::ImageReason(MediaVerdict {
        label: ImageContent::Sexy,
        score: 8550,
        url: String::from("https://cdn.example/b"),
    });
    assert_eq!(reason_string(&sexy), "Sexy image content - 86%");
    let hentai = RejectionReason::ImageReason(MediaVerdict {
        label: ImageContent::Hentai,
        score: 10000,
        url: String::from("https://cdn.example/c"),
    });
    assert_eq!(reason_string(&hentai), "Hentai image content - 100%");
}

#[test]
fn purge_filter_matches_content_and_skips_invoker() {
    assert!(message_matches_search("free nitro here", "nitro", 2, 1));
    assert!(!message_matches_search("free nitro here", "nitro", 1, 1));
    assert!(!message_matches_search("nothing to see", "nitro", 2, 1));
    assert!(within_purge_window(86400000, 1));
    assert!(!within_purge_window(86400002, 1));
}
