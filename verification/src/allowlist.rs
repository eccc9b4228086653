//! The time-expiring exemption set consulted before screening.
//!
//! A subject is exempt when it is a bot, when it holds a trusted role, or
//! when a moderator granted it a temporary exemption that has not lapsed
//! yet.  A lookup lazily evicts that subject's lapsed entries, so an
//! expired exemption is never seen again by a later lookup.

use vstd::prelude::*;

verus! {

/// One exemption: a subject and the instant it lapses, on whatever clock
/// the caller uses (the entry is live strictly before that instant).
#[derive(Copy, Clone, PartialEq, Eq, Debug, Structural)]
pub struct AllowListEntry {
    pub subject: u64,
    pub expires_at: i64,
}

/// Entries carry pairwise distinct subjects.
pub open spec fn wf_entries(entries: Seq<AllowListEntry>) -> bool {
    forall|i: int, j: int|
        0 <= i < j < entries.len() ==> (#[trigger] entries[i]).subject != (
        #[trigger] entries[j]).subject
}

/// Some entry for `subject` is live at `now`.
pub open spec fn spec_live_in(entries: Seq<AllowListEntry>, subject: u64, now: i64) -> bool {
    exists|i: int|
        0 <= i < entries.len() && (#[trigger] entries[i]).subject == subject && now
            < entries[i].expires_at
}

/// The entries with every lapsed entry of `subject` taken out, in order.
pub open spec fn spec_evict(entries: Seq<AllowListEntry>, subject: u64, now: i64) -> Seq<
    AllowListEntry,
>
    decreases entries.len(),
{
    if entries.len() == 0 {
        Seq::empty()
    } else {
        spec_evict(entries.drop_last(), subject, now) + (if entries.last().subject == subject
            && entries.last().expires_at <= now {
            Seq::empty()
        } else {
            seq![entries.last()]
        })
    }
}

/// The entries with every entry of `subject` taken out, in order.
pub open spec fn spec_drop_subject(entries: Seq<AllowListEntry>, subject: u64) -> Seq<
    AllowListEntry,
>
    decreases entries.len(),
{
    if entries.len() == 0 {
        Seq::empty()
    } else {
        spec_drop_subject(entries.drop_last(), subject) + (if entries.last().subject == subject {
            Seq::empty()
        } else {
            seq![entries.last()]
        })
    }
}

/// The member's roles share an element with the trusted set.
pub open spec fn spec_role_overlap(roles: Seq<u64>, trusted: Seq<u64>) -> bool {
    exists|i: int, j: int|
        0 <= i < roles.len() && 0 <= j < trusted.len() && roles[i] == trusted[j]
}

/// Tests whether the member holds any of the trusted roles.
pub fn has_trusted_role(roles: &Vec<u64>, trusted: &Vec<u64>) -> (b: bool)
    ensures
        b == spec_role_overlap(roles@, trusted@),
{
    let mut i: usize = 0;
    while i < roles.len()
        invariant
            i <= roles@.len(),
            forall|p: int, q: int|
                0 <= p < i && 0 <= q < trusted@.len() ==> roles@[p] != trusted@[q],
        decreases roles@.len() - i,
    {
        let mut j: usize = 0;
        while j < trusted.len()
            invariant
                i < roles@.len(),
                j <= trusted@.len(),
                forall|q: int| 0 <= q < j ==> roles@[i as int] != trusted@[q],
            decreases trusted@.len() - j,
        {
            if roles[i] == trusted[j] {
                return true;
            }
            j += 1;
        }
        i += 1;
    }
    false
}

/// Every entry of `spec_evict`'s result comes from the input, and no
/// lapsed entry of the evicted subject remains.
proof fn lemma_evict_props(entries: Seq<AllowListEntry>, subject: u64, now: i64)
    ensures
        forall|k: int|
            0 <= k < spec_evict(entries, subject, now).len() ==> !((#[trigger] spec_evict(
                entries,
                subject,
                now,
            )[k]).subject == subject && spec_evict(entries, subject, now)[k].expires_at <= now),
        forall|k: int|
            0 <= k < spec_evict(entries, subject, now).len() ==> exists|j: int|
                0 <= j < entries.len() && #[trigger] spec_evict(entries, subject, now)[k]
                    == entries[j],
    decreases entries.len(),
{
    if entries.len() == 0 {
    } else {
        lemma_evict_props(entries.drop_last(), subject, now);
        assert forall|k: int|
            0 <= k < spec_evict(entries, subject, now).len() implies !((#[trigger] spec_evict(
            entries,
            subject,
            now,
        )[k]).subject == subject && spec_evict(entries, subject, now)[k].expires_at <= now) by {
            let prev = spec_evict(entries.drop_last(), subject, now);
            if k < prev.len() {
                assert(spec_evict(entries, subject, now)[k] == prev[k]);
            } else {
                assert(spec_evict(entries, subject, now)[k] == entries.last());
            }
        }
        assert forall|k: int|
            0 <= k < spec_evict(entries, subject, now).len() implies exists|j: int|
            0 <= j < entries.len() && #[trigger] spec_evict(entries, subject, now)[k]
                == entries[j] by {
            let prev = spec_evict(entries.drop_last(), subject, now);
            if k < prev.len() {
                let j = choose|j: int|
                    0 <= j < entries.drop_last().len() && prev[k] == entries.drop_last()[j];
                assert(spec_evict(entries, subject, now)[k] == entries[j]);
            } else {
                assert(spec_evict(entries, subject, now)[k] == entries[entries.len() - 1]);
            }
        }
    }
}

/// `spec_evict` keeps subjects pairwise distinct.
proof fn lemma_evict_wf(entries: Seq<AllowListEntry>, subject: u64, now: i64)
    requires
        wf_entries(entries),
    ensures
        wf_entries(spec_evict(entries, subject, now)),
    decreases entries.len(),
{
    if entries.len() == 0 {
    } else {
        assert(wf_entries(entries.drop_last()));
        lemma_evict_wf(entries.drop_last(), subject, now);
        lemma_evict_props(entries.drop_last(), subject, now);
        let r = spec_evict(entries, subject, now);
        let prev = spec_evict(entries.drop_last(), subject, now);
        assert forall|i: int, j: int|
            0 <= i < j < r.len() implies (#[trigger] r[i]).subject != (#[trigger] r[j]).subject by {
            if j < prev.len() {
            } else {
                assert(r[j] == entries.last());
                let w = choose|w: int|
                    0 <= w < entries.drop_last().len() && prev[i] == entries.drop_last()[w];
                assert(entries[w].subject != entries[entries.len() - 1].subject);
            }
        }
    }
}

/// Every entry of `spec_drop_subject`'s result comes from the input and
/// names another subject.
proof fn lemma_drop_subject_props(entries: Seq<AllowListEntry>, subject: u64)
    ensures
        forall|k: int|
            0 <= k < spec_drop_subject(entries, subject).len() ==> (#[trigger] spec_drop_subject(
                entries,
                subject,
            )[k]).subject != subject,
        forall|k: int|
            0 <= k < spec_drop_subject(entries, subject).len() ==> exists|j: int|
                0 <= j < entries.len() && #[trigger] spec_drop_subject(entries, subject)[k]
                    == entries[j],
    decreases entries.len(),
{
    if entries.len() == 0 {
    } else {
        lemma_drop_subject_props(entries.drop_last(), subject);
        assert forall|k: int|
            0 <= k < spec_drop_subject(entries, subject).len() implies exists|j: int|
            0 <= j < entries.len() && #[trigger] spec_drop_subject(entries, subject)[k]
                == entries[j] by {
            let prev = spec_drop_subject(entries.drop_last(), subject);
            if k < prev.len() {
                let j = choose|j: int|
                    0 <= j < entries.drop_last().len() && prev[k] == entries.drop_last()[j];
                assert(spec_drop_subject(entries, subject)[k] == entries[j]);
            } else {
                assert(spec_drop_subject(entries, subject)[k] == entries[entries.len() - 1]);
            }
        }
    }
}

/// `spec_drop_subject` keeps subjects pairwise distinct.
proof fn lemma_drop_subject_wf(entries: Seq<AllowListEntry>, subject: u64)
    requires
        wf_entries(entries),
    ensures
        wf_entries(spec_drop_subject(entries, subject)),
    decreases entries.len(),
{
    if entries.len() == 0 {
    } else {
        assert(wf_entries(entries.drop_last()));
        lemma_drop_subject_wf(entries.drop_last(), subject);
        lemma_drop_subject_props(entries.drop_last(), subject);
        let r = spec_drop_subject(entries, subject);
        let prev = spec_drop_subject(entries.drop_last(), subject);
        assert forall|i: int, j: int|
            0 <= i < j < r.len() implies (#[trigger] r[i]).subject != (#[trigger] r[j]).subject by {
            if j < prev.len() {
            } else {
                assert(r[j] == entries.last());
                let w = choose|w: int|
                    0 <= w < entries.drop_last().len() && prev[i] == entries.drop_last()[w];
                assert(entries[w].subject != entries[entries.len() - 1].subject);
            }
        }
    }
}

/// The exemption store.  Shared across concurrent message handlers by
/// the caller, behind one mutually exclusive guard.
pub struct AllowList {
    entries: Vec<AllowListEntry>,
}

impl AllowList {
    /// The entries, for contracts.
    pub closed spec fn entries_view(self) -> Seq<AllowListEntry> {
        self.entries@
    }

    /// At most one entry per subject.
    pub open spec fn wf(self) -> bool {
        wf_entries(self.entries_view())
    }

    /// Some entry for `subject` is live at `now`.
    pub open spec fn spec_live(self, subject: u64, now: i64) -> bool {
        spec_live_in(self.entries_view(), subject, now)
    }

    /// An empty exemption store.
    pub fn new() -> (r: AllowList)
        ensures
            r.wf(),
            r.entries_view().len() == 0,
    {
        AllowList { entries: Vec::new() }
    }

    /// Whether the author is exempt from screening: a bot, a holder of a
    /// trusted role, or a subject with a live exemption.  A lapsed entry
    /// never counts, and the lookup takes this subject's lapsed entries
    /// out, so no lapsed entry influences a second lookup.
    pub fn is_exempt(
        &mut self,
        subject: u64,
        is_bot: bool,
        roles: &Vec<u64>,
        trusted_roles: &Vec<u64>,
        now: i64,
    ) -> (b: bool)
        requires
            old(self).wf(),
        ensures
            final(self).wf(),
            b == (is_bot || spec_role_overlap(roles@, trusted_roles@) || old(self).spec_live(
                subject,
                now,
            )),
            is_bot || spec_role_overlap(roles@, trusted_roles@) ==> final(self).entries_view()
                == old(self).entries_view(),
            !(is_bot || spec_role_overlap(roles@, trusted_roles@)) ==> final(self).entries_view()
                == spec_evict(old(self).entries_view(), subject, now),
    {
        if is_bot {
            return true;
        }
        if has_trusted_role(roles, trusted_roles) {
            return true;
        }
        let ghost orig = self.entries@;
        let mut kept: Vec<AllowListEntry> = Vec::new();
        let mut live = false;
        let mut i: usize = 0;
        proof {
            assert(spec_evict(orig.take(0), subject, now) =~= Seq::<AllowListEntry>::empty());
        }
        while i < self.entries.len()
            invariant
                i <= orig.len(),
                orig == self.entries@,
                kept@ == spec_evict(orig.take(i as int), subject, now),
                live == spec_live_in(orig.take(i as int), subject, now),
            decreases orig.len() - i,
        {
            let e = self.entries[i];
            proof {
                assert(orig.take(i + 1).drop_last() =~= orig.take(i as int));
                assert(orig.take(i + 1).last() == orig[i as int]);
            }
            if e.subject == subject && now < e.expires_at {
                live = true;
            }
            proof {
                if !live {
                    assert forall|k: int|
                        !(0 <= k < orig.take(i + 1).len() && (#[trigger] orig.take(i + 1)[k]).subject
                            == subject && now < orig.take(i + 1)[k].expires_at) by {
                        if 0 <= k < i {
                            assert(orig.take(i as int)[k] == orig.take(i + 1)[k]);
                        }
                    }
                }
            }
            if !(e.subject == subject && e.expires_at <= now) {
                kept.push(e);
                proof {
                    assert(kept@ =~= spec_evict(orig.take(i + 1), subject, now));
                }
            }
            i += 1;
        }
        proof {
            assert(orig.take(orig.len() as int) =~= orig);
            lemma_evict_wf(orig, subject, now);
        }
        self.entries = kept;
        live
    }

    /// Grants or refreshes this subject's exemption: any earlier entry
    /// for the subject is replaced, entries of other subjects stay.
    /// Until `expires_at` the subject is then exempt.
    pub fn grant(&mut self, subject: u64, expires_at: i64)
        requires
            old(self).wf(),
        ensures
            final(self).wf(),
            final(self).entries_view() == spec_drop_subject(
                old(self).entries_view(),
                subject,
            ).push(AllowListEntry { subject, expires_at }),
            forall|now: i64| now < expires_at ==> final(self).spec_live(subject, now),
    {
        let ghost orig = self.entries@;
        let mut kept: Vec<AllowListEntry> = Vec::new();
        let mut i: usize = 0;
        proof {
            assert(spec_drop_subject(orig.take(0), subject) =~= Seq::<AllowListEntry>::empty());
        }
        while i < self.entries.len()
            invariant
                i <= orig.len(),
                orig == self.entries@,
                kept@ == spec_drop_subject(orig.take(i as int), subject),
            decreases orig.len() - i,
        {
            let e = self.entries[i];
            proof {
                assert(orig.take(i + 1).drop_last() =~= orig.take(i as int));
                assert(orig.take(i + 1).last() == orig[i as int]);
            }
            if e.subject != subject {
                kept.push(e);
                proof {
                    assert(kept@ =~= spec_drop_subject(orig.take(i + 1), subject));
                }
            }
            i += 1;
        }
        proof {
            assert(orig.take(orig.len() as int) =~= orig);
            lemma_drop_subject_wf(orig, subject);
            lemma_drop_subject_props(orig, subject);
        }
        kept.push(AllowListEntry { subject, expires_at });
        self.entries = kept;
        proof {
            let r = self.entries@;
            assert(r.last() == AllowListEntry { subject, expires_at });
            assert forall|i2: int, j2: int|
                0 <= i2 < j2 < r.len() implies (#[trigger] r[i2]).subject != (
            #[trigger] r[j2]).subject by {
                if j2 < r.len() - 1 {
                } else {
                    assert(r[i2] == spec_drop_subject(orig, subject)[i2]);
                }
            }
            assert forall|now: i64| now < expires_at implies self.spec_live(subject, now) by {
                assert(r[r.len() - 1].subject == subject && now < r[r.len() - 1].expires_at);
            }
        }
    }

    /// After a lookup at `now`, no entry for that subject lapsed by
    /// `now` remains: an expired exemption can never influence two
    /// separate checks.
    pub proof fn lemma_expired_entry_gone(entries: Seq<AllowListEntry>, subject: u64, now: i64)
        ensures
            forall|k: int|
                0 <= k < spec_evict(entries, subject, now).len() ==> !((#[trigger] spec_evict(
                    entries,
                    subject,
                    now,
                )[k]).subject == subject && spec_evict(entries, subject, now)[k].expires_at <= now),
            forall|later: i64|
                now <= later ==> (spec_live_in(spec_evict(entries, subject, now), subject, later)
                    ==> spec_live_in(entries, subject, later)),
    {
        lemma_evict_props(entries, subject, now);
        assert forall|later: i64|
            now <= later && spec_live_in(spec_evict(entries, subject, now), subject, later)
            implies spec_live_in(entries, subject, later) by {
            if spec_live_in(spec_evict(entries, subject, now), subject, later) {
                let k = choose|k: int|
                    0 <= k < spec_evict(entries, subject, now).len() && (#[trigger] spec_evict(
                        entries,
                        subject,
                        now,
                    )[k]).subject == subject && later < spec_evict(entries, subject, now)[k].expires_at;
                let j = choose|j: int|
                    0 <= j < entries.len() && spec_evict(entries, subject, now)[k] == entries[j];
                assert(entries[j].subject == subject && later < entries[j].expires_at);
            }
        }
    }
}

} // verus!
