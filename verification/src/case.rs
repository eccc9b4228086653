//! The moderation case: from a positive verdict to a resolution.
//!
//! A flagged message opens a case.  Entry actions archive the media
//! evidence (when there is any), delete the message, mute the author and
//! post a report to the moderators.  The case then waits for exactly one
//! moderator interaction, bounded by a timeout, and resolves on the
//! first deciding event; an unknown interaction is answered as invalid
//! and leaves the case waiting, and once the case is resolved no later
//! event changes it.  The caller performs the returned actions in order
//! and owns the waiting and the clock.

use crate::classify::ImageContent;
use crate::media::MediaVerdict;
use crate::scan;
use crate::text::SpamReason;
use vstd::arithmetic::div_mod::lemma_div_is_ordered;
use vstd::prelude::*;
use vstd::string::StringExecFns;

verus! {

/// Why a message was rejected: the text heuristic's reason, or a media
/// verdict.
pub enum RejectionReason {
    SpamReason(SpamReason),
    ImageReason(MediaVerdict),
}

/// How a case ended.
#[derive(Copy, Clone, PartialEq, Eq, Debug, Structural)]
pub enum Resolution {
    Banned,
    Unmuted,
    Allowlisted,
    TimedOut,
}

/// Where a case stands.
#[derive(Copy, Clone, PartialEq, Eq, Debug, Structural)]
pub enum CaseState {
    AwaitingModeratorDecision,
    Resolved(Resolution),
}

/// What a moderator's interaction asks for.
#[derive(Copy, Clone, PartialEq, Eq, Debug, Structural)]
pub enum InteractionKind {
    Ban,
    Unmute,
    TempAllowlist,
    Other,
}

/// What reaches a waiting case: one interaction, or the timeout.
#[derive(Copy, Clone, PartialEq, Eq, Debug, Structural)]
pub enum CaseEvent {
    Interaction(InteractionKind),
    Timeout,
}

/// One side effect the caller must perform, in the order given.
#[derive(Copy, Clone, PartialEq, Eq, Debug, Structural)]
pub enum CaseAction {
    /// Post the media URL to the moderator channel so evidence survives
    /// the deletion.
    ArchiveMedia,
    /// Delete the offending message.
    DeleteMessage,
    /// Put the mute role on the subject.
    ApplyMuteRole,
    /// Post the report with the reason and the action affordances.
    PostReport,
    /// Ban the subject.
    BanSubject,
    /// Take the mute role off the subject.
    RemoveMuteRole,
    /// Direct-message the subject that the mute was lifted.
    NotifySubject,
    /// Grant the subject a temporary exemption.
    GrantAllowlist,
    /// Tell the moderator the interaction was not understood.
    RespondInvalid,
    /// Post the moderation log entry.
    PostModerationLog,
    /// Delete the archived evidence message, if one was posted.
    DeleteArchivedMedia,
}

/// One suspected-violation incident, alive from detection to
/// resolution.
pub struct ModerationCase {
    pub subject_id: u64,
    pub reason: RejectionReason,
    pub muted_role_applied: bool,
    pub archived_media_message: Option<u64>,
    pub state: CaseState,
}

/// The entry actions of a new case: archive the evidence first when the
/// verdict carries a media URL, then delete the message, mute the
/// subject and post the report.
pub open spec fn spec_open_actions(reason: RejectionReason) -> Seq<CaseAction> {
    match reason {
        RejectionReason::SpamReason(_) => seq![
            CaseAction::DeleteMessage,
            CaseAction::ApplyMuteRole,
            CaseAction::PostReport,
        ],
        RejectionReason::ImageReason(_) => seq![
            CaseAction::ArchiveMedia,
            CaseAction::DeleteMessage,
            CaseAction::ApplyMuteRole,
            CaseAction::PostReport,
        ],
    }
}

/// What one event does to a case: a waiting case resolves on `Ban`,
/// `Unmute`, `TempAllowlist` or the timeout, with the matching side
/// effects; an unknown interaction only answers the moderator and keeps
/// the case waiting; a resolved case absorbs every further event with no
/// action.
pub open spec fn spec_step(state: CaseState, event: CaseEvent) -> (CaseState, Seq<CaseAction>) {
    match state {
        CaseState::Resolved(_) => (state, Seq::empty()),
        CaseState::AwaitingModeratorDecision => match event {
            CaseEvent::Interaction(InteractionKind::Ban) => (
                CaseState::Resolved(Resolution::Banned),
                seq![
                    CaseAction::BanSubject,
                    CaseAction::PostModerationLog,
                    CaseAction::DeleteArchivedMedia,
                ],
            ),
            CaseEvent::Interaction(InteractionKind::Unmute) => (
                CaseState::Resolved(Resolution::Unmuted),
                seq![
                    CaseAction::RemoveMuteRole,
                    CaseAction::NotifySubject,
                    CaseAction::PostModerationLog,
                    CaseAction::DeleteArchivedMedia,
                ],
            ),
            CaseEvent::Interaction(InteractionKind::TempAllowlist) => (
                CaseState::Resolved(Resolution::Allowlisted),
                seq![
                    CaseAction::GrantAllowlist,
                    CaseAction::RemoveMuteRole,
                    CaseAction::NotifySubject,
                    CaseAction::PostModerationLog,
                    CaseAction::DeleteArchivedMedia,
                ],
            ),
            CaseEvent::Interaction(InteractionKind::Other) => (
                CaseState::AwaitingModeratorDecision,
                seq![CaseAction::RespondInvalid],
            ),
            CaseEvent::Timeout => (
                CaseState::Resolved(Resolution::TimedOut),
                seq![
                    CaseAction::RemoveMuteRole,
                    CaseAction::PostModerationLog,
                    CaseAction::DeleteArchivedMedia,
                ],
            ),
        },
    }
}

impl ModerationCase {
    /// Creates the case for a rejected message.  It starts out waiting
    /// on a moderator; the caller performs the entry actions front to
    /// back.
    pub fn open_case(subject_id: u64, reason: RejectionReason) -> (r: (
        ModerationCase,
        Vec<CaseAction>,
    ))
        ensures
            r.0.subject_id == subject_id,
            r.0.reason == reason,
            r.0.muted_role_applied,
            r.0.archived_media_message is None,
            r.0.state == CaseState::AwaitingModeratorDecision,
            r.1@ == spec_open_actions(r.0.reason),
    {
        let mut actions: Vec<CaseAction> = Vec::new();
        let is_media = matches!(reason, RejectionReason::ImageReason(_));
        if is_media {
            actions.push(CaseAction::ArchiveMedia);
        }
        actions.push(CaseAction::DeleteMessage);
        actions.push(CaseAction::ApplyMuteRole);
        actions.push(CaseAction::PostReport);
        proof {
            assert(actions@ =~= spec_open_actions(reason));
        }
        let case = ModerationCase {
            subject_id,
            reason,
            muted_role_applied: true,
            archived_media_message: None,
            state: CaseState::AwaitingModeratorDecision,
        };
        (case, actions)
    }

    /// Advances the case by one event and returns the side effects the
    /// caller must perform, in order.  Only the state and the mute flag
    /// change; the first deciding event resolves the case for good.
    pub fn step(&mut self, event: CaseEvent) -> (actions: Vec<CaseAction>)
        ensures
            final(self).state == spec_step(old(self).state, event).0,
            actions@ == spec_step(old(self).state, event).1,
            final(self).subject_id == old(self).subject_id,
            final(self).reason == old(self).reason,
            final(self).archived_media_message == old(self).archived_media_message,
            final(self).muted_role_applied == (old(self).muted_role_applied && !spec_step(
                old(self).state,
                event,
            ).1.contains(CaseAction::RemoveMuteRole)),
    {
        let mut actions: Vec<CaseAction> = Vec::new();
        match self.state {
            CaseState::Resolved(_) => {
                proof {
                    assert(actions@ =~= spec_step(self.state, event).1);
                    assert(!spec_step(self.state, event).1.contains(CaseAction::RemoveMuteRole));
                }
            },
            CaseState::AwaitingModeratorDecision => {
                match event {
                    CaseEvent::Interaction(InteractionKind::Ban) => {
                        actions.push(CaseAction::BanSubject);
                        actions.push(CaseAction::PostModerationLog);
                        actions.push(CaseAction::DeleteArchivedMedia);
                        self.state = CaseState::Resolved(Resolution::Banned);
                    },
                    CaseEvent::Interaction(InteractionKind::Unmute) => {
                        actions.push(CaseAction::RemoveMuteRole);
                        actions.push(CaseAction::NotifySubject);
                        actions.push(CaseAction::PostModerationLog);
                        actions.push(CaseAction::DeleteArchivedMedia);
                        self.state = CaseState::Resolved(Resolution::Unmuted);
                        self.muted_role_applied = false;
                    },
                    CaseEvent::Interaction(InteractionKind::TempAllowlist) => {
                        actions.push(CaseAction::GrantAllowlist);
                        actions.push(CaseAction::RemoveMuteRole);
                        actions.push(CaseAction::NotifySubject);
                        actions.push(CaseAction::PostModerationLog);
                        actions.push(CaseAction::DeleteArchivedMedia);
                        self.state = CaseState::Resolved(Resolution::Allowlisted);
                        self.muted_role_applied = false;
                    },
                    CaseEvent::Interaction(InteractionKind::Other) => {
                        actions.push(CaseAction::RespondInvalid);
                    },
                    CaseEvent::Timeout => {
                        actions.push(CaseAction::RemoveMuteRole);
                        actions.push(CaseAction::PostModerationLog);
                        actions.push(CaseAction::DeleteArchivedMedia);
                        self.state = CaseState::Resolved(Resolution::TimedOut);
                        self.muted_role_applied = false;
                    },
                }
                proof {
                    assert(actions@ =~= spec_step(old(self).state, event).1);
                    if spec_step(old(self).state, event).1.contains(CaseAction::RemoveMuteRole) {
                    }
                }
            },
        }
        actions
    }
}

/// Maps a moderator interaction's identifier to what it asks for;
/// anything unknown counts as invalid.
pub open spec fn spec_parse_interaction(id: Seq<char>) -> InteractionKind {
    if id == "ban"@ {
        InteractionKind::Ban
    } else if id == "unmute"@ {
        InteractionKind::Unmute
    } else if id == "tempallowlist"@ {
        InteractionKind::TempAllowlist
    } else {
        InteractionKind::Other
    }
}

/// Parses a moderator interaction's identifier.
pub fn parse_interaction(id: &str) -> (r: InteractionKind)
    ensures
        r == spec_parse_interaction(id@),
{
    let chars = scan::to_chars(id);
    let ban = scan::to_chars("ban");
    let unmute = scan::to_chars("unmute");
    let tempallowlist = scan::to_chars("tempallowlist");
    if scan::vec_eq(&chars, &ban) {
        InteractionKind::Ban
    } else if scan::vec_eq(&chars, &unmute) {
        InteractionKind::Unmute
    } else if scan::vec_eq(&chars, &tempallowlist) {
        InteractionKind::TempAllowlist
    } else {
        InteractionKind::Other
    }
}

/// The orchestrator's combination rule: the text heuristic is checked
/// first and its reason wins; only a message clean of text findings
/// falls to the media verdict; with neither there is no rejection.
pub open spec fn spec_message_verdict(
    text: Option<SpamReason>,
    media: Option<MediaVerdict>,
) -> Option<RejectionReason> {
    match text {
        Some(t) => Some(RejectionReason::SpamReason(t)),
        None => match media {
            Some(m) => Some(RejectionReason::ImageReason(m)),
            None => None,
        },
    }
}

/// Combines the text and media screening outcomes, text first.
pub fn message_verdict(text: Option<SpamReason>, media: Option<MediaVerdict>) -> (r: Option<
    RejectionReason,
>)
    ensures
        r == spec_message_verdict(text, media),
{
    match text {
        Some(t) => Some(RejectionReason::SpamReason(t)),
        None => match media {
            Some(m) => Some(RejectionReason::ImageReason(m)),
            None => None,
        },
    }
}

/// Exactly one of two racing events decides a waiting case: the first
/// deciding event resolves it to its own branch, and whatever arrives
/// second leaves the resolved state untouched and causes no action.
pub proof fn lemma_resolution_exclusive(first: InteractionKind, second: CaseEvent)
    requires
        first != InteractionKind::Other,
    ensures
        spec_step(CaseState::AwaitingModeratorDecision, CaseEvent::Interaction(first)).0
            is Resolved,
        first == InteractionKind::Ban ==> spec_step(
            CaseState::AwaitingModeratorDecision,
            CaseEvent::Interaction(first),
        ).0 == CaseState::Resolved(Resolution::Banned),
        first == InteractionKind::Unmute ==> spec_step(
            CaseState::AwaitingModeratorDecision,
            CaseEvent::Interaction(first),
        ).0 == CaseState::Resolved(Resolution::Unmuted),
        first == InteractionKind::TempAllowlist ==> spec_step(
            CaseState::AwaitingModeratorDecision,
            CaseEvent::Interaction(first),
        ).0 == CaseState::Resolved(Resolution::Allowlisted),
        spec_step(
            spec_step(CaseState::AwaitingModeratorDecision, CaseEvent::Interaction(first)).0,
            second,
        ).0 == spec_step(CaseState::AwaitingModeratorDecision, CaseEvent::Interaction(first)).0,
        spec_step(
            spec_step(CaseState::AwaitingModeratorDecision, CaseEvent::Interaction(first)).0,
            second,
        ).1 == Seq::<CaseAction>::empty(),
{
}

/// The digit character of one decimal digit.
pub open spec fn spec_digit_char(d: int) -> char {
    if d == 0 {
        '0'
    } else if d == 1 {
        '1'
    } else if d == 2 {
        '2'
    } else if d == 3 {
        '3'
    } else if d == 4 {
        '4'
    } else if d == 5 {
        '5'
    } else if d == 6 {
        '6'
    } else if d == 7 {
        '7'
    } else if d == 8 {
        '8'
    } else {
        '9'
    }
}

/// The decimal digits of a number, most significant first.
pub open spec fn spec_dec_digits(n: int) -> Seq<char>
    decreases n,
{
    if n < 10 {
        seq![spec_digit_char(n)]
    } else {
        spec_dec_digits(n / 10) + seq![spec_digit_char(n % 10)]
    }
}

fn digit_str(d: u32) -> (r: &'static str)
    requires
        d < 10,
    ensures
        r@ == seq![spec_digit_char(d as int)],
{
    proof {
        reveal_strlit("0");
        reveal_strlit("1");
        reveal_strlit("2");
        reveal_strlit("3");
        reveal_strlit("4");
        reveal_strlit("5");
        reveal_strlit("6");
        reveal_strlit("7");
        reveal_strlit("8");
        reveal_strlit("9");
    }
    let r = match d {
        0 => "0",
        1 => "1",
        2 => "2",
        3 => "3",
        4 => "4",
        5 => "5",
        6 => "6",
        7 => "7",
        8 => "8",
        _ => "9",
    };
    proof {
        assert(r@ =~= seq![spec_digit_char(d as int)]);
    }
    r
}

/// Appends the decimal digits of `n` to `out`.
fn push_decimal(out: &mut String, n: u32)
    ensures
        final(out)@ == old(out)@ + spec_dec_digits(n as int),
    decreases n,
{
    if n < 10 {
        out.append(digit_str(n));
    } else {
        push_decimal(out, n / 10);
        out.append(digit_str(n % 10));
        proof {
            assert(old(out)@ + spec_dec_digits((n / 10) as int) + seq![
                spec_digit_char((n % 10) as int),
            ] =~= old(out)@ + spec_dec_digits(n as int));
        }
    }
}

/// A score in basis points as a whole percentage, rounded to nearest.
pub open spec fn spec_percent(score: u32) -> int {
    (score + 50) / 100
}

/// The text of a rejection reason as the report shows it: the text
/// heuristic's name, or the content class with its confidence as a
/// percentage, `Porn image content - 90%` say.
pub open spec fn spec_reason_text(reason: RejectionReason) -> Seq<char> {
    match reason {
        RejectionReason::SpamReason(s) => s.spec_name(),
        RejectionReason::ImageReason(m) => m.label.spec_name() + " - "@ + spec_dec_digits(
            spec_percent(m.score),
        ) + "%"@,
    }
}

/// Renders the reason line of a moderation report.
pub fn reason_string(reason: &RejectionReason) -> (r: String)
    ensures
        r@ == spec_reason_text(*reason),
{
    match reason {
        RejectionReason::SpamReason(s) => String::from_str(s.as_str()),
        RejectionReason::ImageReason(m) => {
            let mut out = String::from_str(m.label.as_str());
            out.append(" - ");
            let pct64 = ((m.score as u64) + 50) / 100;
            proof {
                lemma_div_is_ordered((m.score + 50) as int, 0xFFFF_FFFFu32 as int + 50, 100);
            }
            let pct = pct64 as u32;
            push_decimal(&mut out, pct);
            out.append("%");
            proof {
                assert(out@ =~= spec_reason_text(*reason));
            }
            out
        },
    }
}

} // verus!
