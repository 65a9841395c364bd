//! The decision engine: per-entity advisor state and the per-cycle
//! selection / reconciliation pass.
//!
//! The engine is generic over any suggestion schema satisfying the
//! [`YoetzSuggestion`] contract: a tagged union of behaviors with a derived
//! identity (the `key`), persisted per-variant behavior records reachable
//! through an accessor (`OmniQuery`), and the transition operations the
//! reconciliation needs (remove, add, patch in place).

use vstd::prelude::*;

verus! {

/// An action suggestion for the decision engine to consider.
///
/// Types implementing this trait are tagged unions of candidate behaviors.
/// Each implementation supplies:
///
/// * `Key` - the identity of a suggestion: the variant tag together with the
///   identity-bearing (`key` role) fields.  Two suggestions are the same
///   logical behavior exactly when their key views are equal.
/// * `OmniQuery` - the per-entity accessor able to reference whichever one of
///   the per-variant behavior records is currently attached.  All contracts
///   speak about its mathematical view.
/// * the transition operations `remove_components`, `add_components` and
///   `update_into_components`, each pinned to a spec-level transition
///   function on the accessor's view.
pub trait YoetzSuggestion: Sized {
    /// The identity of a suggestion: stable while the suggested data changes.
    type Key: View;

    /// The per-entity accessor over all possible behavior records.
    type OmniQuery: View;

    /// Whether this suggestion value is well formed.
    spec fn wf(&self) -> bool;

    /// The view of the identity this suggestion derives.
    spec fn key_spec(&self) -> <Self::Key as View>::V;

    /// Whether a records accessor is well formed.
    spec fn records_wf(rv: <Self::OmniQuery as View>::V) -> bool;

    /// Whether this suggestion belongs to the same schema as the accessor.
    spec fn compat(&self, rv: <Self::OmniQuery as View>::V) -> bool;

    /// Whether a key can address a record slot of the accessor.
    spec fn key_compat(kv: <Self::Key as View>::V, rv: <Self::OmniQuery as View>::V) -> bool;

    /// The accessor after the record matching the key's tag is removed.
    spec fn remove_view(
        kv: <Self::Key as View>::V,
        rv: <Self::OmniQuery as View>::V,
    ) -> <Self::OmniQuery as View>::V;

    /// The accessor after a fresh record for this suggestion is attached,
    /// populated from all of the suggestion's fields.
    spec fn add_view(s: Self, rv: <Self::OmniQuery as View>::V) -> <Self::OmniQuery as View>::V;

    /// Whether the record slot for this suggestion's variant is populated,
    /// so that a patch in place can succeed.
    spec fn can_patch(s: Self, rv: <Self::OmniQuery as View>::V) -> bool;

    /// The accessor after the attached record of this suggestion's variant is
    /// refreshed in place: `input` fields from the suggestion, `key` and
    /// `state` fields kept.
    spec fn patch_view(s: Self, rv: <Self::OmniQuery as View>::V) -> <Self::OmniQuery as View>::V;

    /// Removing a record keeps the accessor well formed and does not change
    /// which suggestions and keys it is compatible with.
    proof fn lemma_remove_preserves(kv: <Self::Key as View>::V, rv: <Self::OmniQuery as View>::V)
        requires
            Self::records_wf(rv),
            Self::key_compat(kv, rv),
        ensures
            Self::records_wf(Self::remove_view(kv, rv)),
            forall|s: Self| s.compat(rv) ==> s.compat(Self::remove_view(kv, rv)),
            forall|k2: <Self::Key as View>::V|
                Self::key_compat(k2, rv) ==> Self::key_compat(k2, Self::remove_view(kv, rv)),
    ;

    /// Attaching a record keeps the accessor well formed, keeps every
    /// compatibility, and makes the new record addressable by its own key.
    proof fn lemma_add_preserves(s: Self, rv: <Self::OmniQuery as View>::V)
        requires
            s.wf(),
            s.compat(rv),
            Self::records_wf(rv),
        ensures
            Self::records_wf(Self::add_view(s, rv)),
            Self::key_compat(s.key_spec(), Self::add_view(s, rv)),
            forall|s2: Self| s2.compat(rv) ==> s2.compat(Self::add_view(s, rv)),
            forall|k2: <Self::Key as View>::V|
                Self::key_compat(k2, rv) ==> Self::key_compat(k2, Self::add_view(s, rv)),
    ;

    /// Patching a record in place keeps the accessor well formed and does not
    /// change which suggestions and keys it is compatible with.
    proof fn lemma_patch_preserves(s: Self, rv: <Self::OmniQuery as View>::V)
        requires
            s.wf(),
            s.compat(rv),
            Self::records_wf(rv),
            Self::can_patch(s, rv),
        ensures
            Self::records_wf(Self::patch_view(s, rv)),
            forall|s2: Self| s2.compat(rv) ==> s2.compat(Self::patch_view(s, rv)),
            forall|k2: <Self::Key as View>::V|
                Self::key_compat(k2, rv) ==> Self::key_compat(k2, Self::patch_view(s, rv)),
    ;

    /// Generate the `Key` that identifies the suggestion.
    fn key(&self) -> (k: Self::Key)
        requires
            self.wf(),
        ensures
            k@ == self.key_spec(),
    ;

    /// Decide whether two keys identify the same behavior.
    fn key_eq(a: &Self::Key, b: &Self::Key) -> (r: bool)
        ensures
            r == (a@ == b@),
    ;

    /// Remove the behavior record that was created by a suggestion with the
    /// given key.
    fn remove_components(key: &Self::Key, records: &mut Self::OmniQuery)
        requires
            Self::key_compat(key@, old(records)@),
            Self::records_wf(old(records)@),
        ensures
            final(records)@ == Self::remove_view(key@, old(records)@),
    ;

    /// Attach a fresh behavior record created from the suggestion.  This is
    /// the only point at which `state` fields are (re)initialized.
    fn add_components(self, records: &mut Self::OmniQuery)
        requires
            self.wf(),
            self.compat(old(records)@),
            Self::records_wf(old(records)@),
        ensures
            final(records)@ == Self::add_view(self, old(records)@),
    ;

    /// Refresh the existing behavior record from the suggestion's data: only
    /// `input` fields are written; `key` and `state` fields are untouched.
    /// If the record slot for the suggestion's variant is not populated, the
    /// suggestion is handed back unchanged so the caller can fall back to a
    /// full replacement.
    fn update_into_components(self, records: &mut Self::OmniQuery) -> (res: Result<(), Self>)
        requires
            self.wf(),
            self.compat(old(records)@),
            Self::records_wf(old(records)@),
        ensures
            match res {
                Ok(()) => Self::can_patch(self, old(records)@) && final(records)@
                    == Self::patch_view(self, old(records)@),
                Err(s) => s == self && !Self::can_patch(self, old(records)@) && *final(records)
                    == *old(records),
            },
    ;
}

/// The bonus a suggestion earns: the consistency bonus exactly when the
/// entity has an active behavior and the suggestion's identity equals it,
/// else zero.
pub open spec fn spec_bonus<S: YoetzSuggestion>(
    active: Option<<S::Key as View>::V>,
    consistency_bonus: i64,
    s: &S,
) -> int {
    match active {
        Some(kv) => if s.key_spec() == kv {
            consistency_bonus as int
        } else {
            0
        },
        None => 0,
    }
}

/// The effective score of an offered suggestion: its score plus its bonus.
pub open spec fn spec_effective<S: YoetzSuggestion>(
    active: Option<<S::Key as View>::V>,
    consistency_bonus: i64,
    call: (i64, S),
) -> int {
    call.0 + spec_bonus(active, consistency_bonus, &call.1)
}

/// One `suggest` call: the pending slot after a suggestion with the given
/// score is offered.  The pending slot stores the effective score computed at
/// the time the suggestion was accepted; a later suggestion replaces it only
/// by strictly exceeding that stored score, so the earliest suggestion to
/// reach the winning score is the one that is kept.
pub open spec fn spec_suggest<S: YoetzSuggestion>(
    active: Option<<S::Key as View>::V>,
    consistency_bonus: i64,
    pending: Option<(i64, S)>,
    score: i64,
    s: S,
) -> Option<(i64, S)> {
    let eff = spec_effective(active, consistency_bonus, (score, s));
    match pending {
        None => Some((eff as i64, s)),
        Some((cur, p)) => if eff > cur {
            Some((eff as i64, s))
        } else {
            Some((cur, p))
        },
    }
}

/// A whole Suggest phase: the pending slot after a sequence of `suggest`
/// calls, offered in order.
pub open spec fn spec_run_suggestions<S: YoetzSuggestion>(
    active: Option<<S::Key as View>::V>,
    consistency_bonus: i64,
    pending: Option<(i64, S)>,
    calls: Seq<(i64, S)>,
) -> Option<(i64, S)>
    decreases calls.len(),
{
    if calls.len() == 0 {
        pending
    } else {
        spec_run_suggestions(
            active,
            consistency_bonus,
            spec_suggest(active, consistency_bonus, pending, calls[0].0, calls[0].1),
            calls.drop_first(),
        )
    }
}

/// The Decide pass on one entity: the active identity and the records
/// accessor after the pending winner (if any) is reconciled.
pub open spec fn spec_decide<S: YoetzSuggestion>(
    active: Option<<S::Key as View>::V>,
    pending: Option<(i64, S)>,
    rv: <S::OmniQuery as View>::V,
) -> (Option<<S::Key as View>::V>, <S::OmniQuery as View>::V) {
    match pending {
        None => (active, rv),
        Some((_, s)) => {
            let kv = s.key_spec();
            match active {
                Some(ok) => if ok == kv && S::can_patch(s, rv) {
                    (Some(ok), S::patch_view(s, rv))
                } else {
                    (Some(kv), S::add_view(s, S::remove_view(ok, rv)))
                },
                None => (Some(kv), S::add_view(s, rv)),
            }
        },
    }
}

/// Controls an entity's behavior selection by listening to scored
/// suggestions and, once per cycle, reconciling the entity's behavior
/// records with the winner.
pub struct YoetzAdvisor<S: YoetzSuggestion> {
    /// Added to the score of any suggestion that matches the currently
    /// active behavior, to reduce flickering between near-tied candidates.
    /// Configuration: never changed by the engine.
    pub consistency_bonus: i64,
    active_key: Option<S::Key>,
    top_suggestion: Option<(i64, S)>,
}

impl<S: YoetzSuggestion> YoetzAdvisor<S> {
    /// The configured consistency bonus.
    pub closed spec fn bonus(&self) -> i64 {
        self.consistency_bonus
    }

    /// The view of the currently active identity, if any.
    pub closed spec fn active(&self) -> Option<<S::Key as View>::V> {
        match self.active_key {
            Some(k) => Some(k@),
            None => None,
        }
    }

    /// The pending top suggestion with its stored effective score.
    pub closed spec fn pending(&self) -> Option<(i64, S)> {
        self.top_suggestion
    }

    /// Every suggestion held in the pending slot is well formed.
    pub open spec fn inv(&self) -> bool {
        self.pending() matches Some((_, s)) ==> s.wf()
    }

    /// Create a new advisor with the given consistency bonus, no active
    /// behavior and an empty pending slot.
    pub fn new(consistency_bonus: i64) -> (r: Self)
        ensures
            r.bonus() == consistency_bonus,
            r.active() is None,
            r.pending() is None,
            r.inv(),
    {
        Self { consistency_bonus, active_key: None, top_suggestion: None }
    }

    /// The key of the currently active behavior.
    ///
    /// This can be used to implement a state machine behavior, where the
    /// code that suggests a behavior looks at the current state.
    pub fn active_key(&self) -> (r: &Option<S::Key>)
        ensures
            match r {
                Some(k) => self.active() == Some(k@),
                None => self.active() is None,
            },
    {
        &self.active_key
    }

    /// Suggest a behavior for the entity to consider.
    ///
    /// A suggestion should be sent every cycle as long as it is valid - once
    /// it stops being sent it is immediately replaced by another suggestion.
    /// The pending slot keeps the first suggestion to reach the winning
    /// effective score: a later suggestion that merely ties it does not
    /// replace it.
    pub fn suggest(&mut self, score: i64, suggestion: S)
        requires
            old(self).inv(),
            suggestion.wf(),
            i64::MIN <= score + old(self).bonus(),
            score + old(self).bonus() <= i64::MAX,
        ensures
            final(self).inv(),
            final(self).bonus() == old(self).bonus(),
            final(self).active() == old(self).active(),
            final(self).pending() == spec_suggest(
                old(self).active(),
                old(self).bonus(),
                old(self).pending(),
                score,
                suggestion,
            ),
    {
        let bonus: i64 = match &self.active_key {
            Some(k) => {
                if S::key_eq(k, &suggestion.key()) {
                    self.consistency_bonus
                } else {
                    0
                }
            },
            None => 0,
        };
        let effective: i64 = score + bonus;
        if let Some((current_score, _)) = &self.top_suggestion {
            if effective <= *current_score {
                return ;
            }
        }
        self.top_suggestion = Some((effective, suggestion));
    }
}

/// A pending suggestion whose stored score no later call strictly exceeds
/// stays in the pending slot to the end of the cycle.
proof fn lemma_run_keeps<S: YoetzSuggestion>(
    active: Option<<S::Key as View>::V>,
    consistency_bonus: i64,
    pending: (i64, S),
    calls: Seq<(i64, S)>,
)
    requires
        forall|i: int|
            0 <= i < calls.len() ==> spec_effective(active, consistency_bonus, #[trigger] calls[i])
                <= pending.0,
    ensures
        spec_run_suggestions(active, consistency_bonus, Some(pending), calls) == Some(pending),
    decreases calls.len(),
{
    if calls.len() > 0 {
        let rest = calls.drop_first();
        assert forall|i: int|
            0 <= i < rest.len() implies spec_effective(
            active,
            consistency_bonus,
            #[trigger] rest[i],
        ) <= pending.0 by {
            assert(rest[i] == calls[i + 1]);
        }
        lemma_run_keeps(active, consistency_bonus, pending, rest);
    }
}

/// Max with hysteresis: over any sequence of `suggest` calls in one cycle,
/// the winner is the one with the greatest effective score - its score plus
/// the consistency bonus exactly when its identity equals the entity's
/// current active identity - and a tie resolves to the first call reaching
/// that score in the sequence.
///
/// `m` is that winning index: every earlier call scores strictly below it
/// and no later call scores above it.  The pending slot starts the cycle
/// empty, every effective score fits in the score type, and at the end of
/// the Suggest phase the pending slot holds exactly call `m` with its
/// effective score.
pub proof fn lemma_max_with_hysteresis<S: YoetzSuggestion>(
    active: Option<<S::Key as View>::V>,
    consistency_bonus: i64,
    calls: Seq<(i64, S)>,
    m: int,
)
    requires
        0 <= m < calls.len(),
        forall|i: int|
            0 <= i < calls.len() ==> i64::MIN <= spec_effective(
                active,
                consistency_bonus,
                #[trigger] calls[i],
            ) <= i64::MAX,
        forall|i: int|
            0 <= i < m ==> spec_effective(active, consistency_bonus, #[trigger] calls[i])
                < spec_effective(active, consistency_bonus, calls[m]),
        forall|i: int|
            m < i < calls.len() ==> spec_effective(active, consistency_bonus, #[trigger] calls[i])
                <= spec_effective(active, consistency_bonus, calls[m]),
    ensures
        spec_run_suggestions(active, consistency_bonus, None::<(i64, S)>, calls) == Some(
            (spec_effective(active, consistency_bonus, calls[m]) as i64, calls[m].1),
        ),
{
    lemma_run_wins(active, consistency_bonus, None, calls, m);
}

/// Induction workhorse behind [`lemma_max_with_hysteresis`], generalized to
/// a possibly non-empty pending slot that winning call `m` still beats.
proof fn lemma_run_wins<S: YoetzSuggestion>(
    active: Option<<S::Key as View>::V>,
    consistency_bonus: i64,
    pending: Option<(i64, S)>,
    calls: Seq<(i64, S)>,
    m: int,
)
    requires
        0 <= m < calls.len(),
        pending matches Some((cur, _)) ==> cur < spec_effective(
            active,
            consistency_bonus,
            calls[m],
        ),
        forall|i: int|
            0 <= i < calls.len() ==> i64::MIN <= spec_effective(
                active,
                consistency_bonus,
                #[trigger] calls[i],
            ) <= i64::MAX,
        forall|i: int|
            0 <= i < m ==> spec_effective(active, consistency_bonus, #[trigger] calls[i])
                < spec_effective(active, consistency_bonus, calls[m]),
        forall|i: int|
            m < i < calls.len() ==> spec_effective(active, consistency_bonus, #[trigger] calls[i])
                <= spec_effective(active, consistency_bonus, calls[m]),
    ensures
        spec_run_suggestions(active, consistency_bonus, pending, calls) == Some(
            (spec_effective(active, consistency_bonus, calls[m]) as i64, calls[m].1),
        ),
    decreases calls.len(),
{
    let rest = calls.drop_first();
    let eff_m = spec_effective(active, consistency_bonus, calls[m]);
    let stepped = spec_suggest(
        active,
        consistency_bonus,
        pending,
        calls[0].0,
        calls[0].1,
    );
    if m == 0 {
        assert(stepped == Some((eff_m as i64, calls[0].1)));
        assert forall|i: int|
            0 <= i < rest.len() implies spec_effective(
            active,
            consistency_bonus,
            #[trigger] rest[i],
        ) <= eff_m as i64 by {
            assert(rest[i] == calls[i + 1]);
        }
        lemma_run_keeps(active, consistency_bonus, (eff_m as i64, calls[0].1), rest);
    } else {
        assert(stepped matches Some((cur, _)) ==> cur < eff_m);
        assert forall|i: int|
            0 <= i < rest.len() implies i64::MIN <= spec_effective(
            active,
            consistency_bonus,
            #[trigger] rest[i],
        ) <= i64::MAX by {
            assert(rest[i] == calls[i + 1]);
        }
        assert forall|i: int|
            0 <= i < m - 1 implies spec_effective(active, consistency_bonus, #[trigger] rest[i])
            < spec_effective(active, consistency_bonus, rest[m - 1]) by {
            assert(rest[i] == calls[i + 1]);
            assert(rest[m - 1] == calls[m]);
        }
        assert forall|i: int|
            m - 1 < i < rest.len() implies spec_effective(
            active,
            consistency_bonus,
            #[trigger] rest[i],
        ) <= spec_effective(active, consistency_bonus, rest[m - 1]) by {
            assert(rest[i] == calls[i + 1]);
            assert(rest[m - 1] == calls[m]);
        }
        lemma_run_wins(active, consistency_bonus, stepped, rest, m - 1);
        assert(rest[m - 1] == calls[m]);
    }
}

/// The Decide pass for one entity: take and clear the pending winner and
/// reconcile the entity's behavior records with it.
///
/// If no suggestion was offered this cycle the previously active behavior
/// record is left entirely untouched.  Otherwise, when the winner's identity
/// equals the active one the attached record is refreshed in place (with a
/// fall back to full replacement if the record slot is unexpectedly absent -
/// an internal desynchronization, never a caller error); on any identity
/// change the old record is removed and a fresh one attached.
pub fn update_advisor<S: YoetzSuggestion>(advisor: &mut YoetzAdvisor<S>, records: &mut S::OmniQuery)
    requires
        old(advisor).inv(),
        S::records_wf(old(records)@),
        old(advisor).pending() matches Some((_, s)) ==> s.compat(old(records)@),
        old(advisor).active() matches Some(kv) ==> S::key_compat(kv, old(records)@),
    ensures
        final(advisor).inv(),
        final(advisor).bonus() == old(advisor).bonus(),
        final(advisor).pending() is None,
        S::records_wf(final(records)@),
        final(advisor).active() matches Some(kv) ==> S::key_compat(kv, final(records)@),
        ({
            let (a2, rv2) = spec_decide(old(advisor).active(), old(advisor).pending(), old(records)@);
            final(advisor).active() == a2 && final(records)@ == rv2
        }),
        old(advisor).pending() is None ==> *final(records) == *old(records) && *final(advisor)
            == *old(advisor),
{
    let taken = advisor.top_suggestion.take();
    let mut suggestion = match taken {
        Some((_, s)) => s,
        None => {
            return ;
        },
    };
    let ghost s0 = suggestion;
    let key = suggestion.key();
    match &advisor.active_key {
        Some(old_key) => {
            if S::key_eq(old_key, &key) {
                match suggestion.update_into_components(records) {
                    Ok(()) => {
                        proof {
                            S::lemma_patch_preserves(s0, old(records)@);
                        }
                        return ;
                    },
                    Err(s) => {
                        suggestion = s;
                    },
                }
            }
            proof {
                S::lemma_remove_preserves(old_key@, old(records)@);
            }
            S::remove_components(old_key, records);
        },
        None => {},
    }
    proof {
        S::lemma_add_preserves(suggestion, records@);
    }
    suggestion.add_components(records);
    advisor.active_key = Some(key);
}

} // verus!
