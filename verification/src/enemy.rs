//! A worked suggestion schema, written out by hand exactly as the schema
//! compiler's artifacts describe it.
//!
//! The union has three behaviors: doing nothing, chasing a target, and
//! circling a target.  The target is a `key` field (chasing another target
//! is a different behavior), the distance an `input` field (refreshed every
//! cycle the suggestion is re-offered), and the circling direction a
//! `state` field (drawn when the behavior is entered, then frozen).  The
//! identity enum, the per-variant records, the accessor and the four
//! transition operations below are what the compiler derives for this
//! schema; the decision engine works against them through the
//! [`YoetzSuggestion`] contract alone.

use vstd::prelude::*;

use crate::advisor::YoetzSuggestion;

verus! {

/// A candidate behavior for one cycle.
#[derive(Clone, Copy, Debug, PartialEq, Eq, Structural)]
pub enum EnemyBehavior {
    /// Stand still.
    Idle,
    /// Chase the target.
    Chase {
        /// The chased entity (key).
        target_entity: u64,
        /// The distance to it (input).
        distance: i64,
    },
    /// Circle around the target.
    Circle {
        /// The circled entity (key).
        target_entity: u64,
        /// The distance to it (input).
        distance: i64,
        /// The direction to circle in (state).
        go_counter_clockwise: bool,
    },
}

/// The identity of a behavior: the variant and its `key` fields.
#[derive(Clone, Copy, Debug, PartialEq, Eq, Structural)]
pub enum EnemyBehaviorKey {
    /// Standing still.
    Idle,
    /// Chasing this entity.
    Chase {
        /// The chased entity.
        target_entity: u64,
    },
    /// Circling this entity.
    Circle {
        /// The circled entity.
        target_entity: u64,
    },
}

impl View for EnemyBehaviorKey {
    type V = EnemyBehaviorKey;

    open spec fn view(&self) -> EnemyBehaviorKey {
        *self
    }
}

/// The record attached while standing still.
#[derive(Clone, Copy, Debug, PartialEq, Eq, Structural)]
pub struct EnemyBehaviorIdle;

/// The record attached while chasing.
#[derive(Clone, Copy, Debug, PartialEq, Eq, Structural)]
pub struct EnemyBehaviorChase {
    /// The chased entity (key, kept for inspection).
    pub target_entity: u64,
    /// The distance to it (input, refreshed on every patch).
    pub distance: i64,
}

/// The record attached while circling.
#[derive(Clone, Copy, Debug, PartialEq, Eq, Structural)]
pub struct EnemyBehaviorCircle {
    /// The circled entity (key, kept for inspection).
    pub target_entity: u64,
    /// The distance to it (input, refreshed on every patch).
    pub distance: i64,
    /// The direction to circle in (state, owned by the acting routine).
    pub go_counter_clockwise: bool,
}

/// The accessor over all three records: one optional slot per variant, of
/// which the engine keeps at most one populated.
#[derive(Clone, Copy, Debug, PartialEq, Eq, Structural)]
pub struct EnemyBehaviorOmniQuery {
    /// The idle record, if attached.
    pub strategy0: Option<EnemyBehaviorIdle>,
    /// The chase record, if attached.
    pub strategy1: Option<EnemyBehaviorChase>,
    /// The circle record, if attached.
    pub strategy2: Option<EnemyBehaviorCircle>,
}

impl EnemyBehaviorOmniQuery {
    /// An accessor with no record attached.
    pub fn new() -> (r: EnemyBehaviorOmniQuery)
        ensures
            r.strategy0 is None,
            r.strategy1 is None,
            r.strategy2 is None,
    {
        EnemyBehaviorOmniQuery { strategy0: None, strategy1: None, strategy2: None }
    }
}

impl View for EnemyBehaviorOmniQuery {
    type V = EnemyBehaviorOmniQuery;

    open spec fn view(&self) -> EnemyBehaviorOmniQuery {
        *self
    }
}

impl YoetzSuggestion for EnemyBehavior {
    type Key = EnemyBehaviorKey;

    type OmniQuery = EnemyBehaviorOmniQuery;

    open spec fn wf(&self) -> bool {
        true
    }

    open spec fn key_spec(&self) -> EnemyBehaviorKey {
        match *self {
            EnemyBehavior::Idle => EnemyBehaviorKey::Idle,
            EnemyBehavior::Chase { target_entity, .. } => EnemyBehaviorKey::Chase { target_entity },
            EnemyBehavior::Circle { target_entity, .. } => EnemyBehaviorKey::Circle {
                target_entity,
            },
        }
    }

    open spec fn records_wf(rv: EnemyBehaviorOmniQuery) -> bool {
        true
    }

    open spec fn compat(&self, rv: EnemyBehaviorOmniQuery) -> bool {
        true
    }

    open spec fn key_compat(kv: EnemyBehaviorKey, rv: EnemyBehaviorOmniQuery) -> bool {
        true
    }

    open spec fn remove_view(
        kv: EnemyBehaviorKey,
        rv: EnemyBehaviorOmniQuery,
    ) -> EnemyBehaviorOmniQuery {
        match kv {
            EnemyBehaviorKey::Idle => EnemyBehaviorOmniQuery { strategy0: None, ..rv },
            EnemyBehaviorKey::Chase { .. } => EnemyBehaviorOmniQuery { strategy1: None, ..rv },
            EnemyBehaviorKey::Circle { .. } => EnemyBehaviorOmniQuery { strategy2: None, ..rv },
        }
    }

    open spec fn add_view(
        s: EnemyBehavior,
        rv: EnemyBehaviorOmniQuery,
    ) -> EnemyBehaviorOmniQuery {
        match s {
            EnemyBehavior::Idle => EnemyBehaviorOmniQuery {
                strategy0: Some(EnemyBehaviorIdle),
                ..rv
            },
            EnemyBehavior::Chase { target_entity, distance } => EnemyBehaviorOmniQuery {
                strategy1: Some(EnemyBehaviorChase { target_entity, distance }),
                ..rv
            },
            EnemyBehavior::Circle { target_entity, distance, go_counter_clockwise } => {
                EnemyBehaviorOmniQuery {
                    strategy2: Some(
                        EnemyBehaviorCircle { target_entity, distance, go_counter_clockwise },
                    ),
                    ..rv
                }
            },
        }
    }

    open spec fn can_patch(s: EnemyBehavior, rv: EnemyBehaviorOmniQuery) -> bool {
        match s {
            EnemyBehavior::Idle => rv.strategy0 is Some,
            EnemyBehavior::Chase { .. } => rv.strategy1 is Some,
            EnemyBehavior::Circle { .. } => rv.strategy2 is Some,
        }
    }

    open spec fn patch_view(
        s: EnemyBehavior,
        rv: EnemyBehaviorOmniQuery,
    ) -> EnemyBehaviorOmniQuery {
        match s {
            EnemyBehavior::Idle => rv,
            EnemyBehavior::Chase { distance, .. } => EnemyBehaviorOmniQuery {
                strategy1: Some(
                    EnemyBehaviorChase { distance, ..rv.strategy1.unwrap() },
                ),
                ..rv
            },
            EnemyBehavior::Circle { distance, .. } => EnemyBehaviorOmniQuery {
                strategy2: Some(
                    EnemyBehaviorCircle { distance, ..rv.strategy2.unwrap() },
                ),
                ..rv
            },
        }
    }

    proof fn lemma_remove_preserves(kv: EnemyBehaviorKey, rv: EnemyBehaviorOmniQuery) {
    }

    proof fn lemma_add_preserves(s: EnemyBehavior, rv: EnemyBehaviorOmniQuery) {
    }

    proof fn lemma_patch_preserves(s: EnemyBehavior, rv: EnemyBehaviorOmniQuery) {
    }

    fn key(&self) -> (k: EnemyBehaviorKey) {
        match self {
            EnemyBehavior::Idle => EnemyBehaviorKey::Idle,
            EnemyBehavior::Chase { target_entity, distance: _ } => EnemyBehaviorKey::Chase {
                target_entity: *target_entity,
            },
            EnemyBehavior::Circle { target_entity, distance: _, go_counter_clockwise: _ } => {
                EnemyBehaviorKey::Circle { target_entity: *target_entity }
            },
        }
    }

    fn key_eq(a: &EnemyBehaviorKey, b: &EnemyBehaviorKey) -> (r: bool) {
        a == b
    }

    fn remove_components(key: &EnemyBehaviorKey, records: &mut EnemyBehaviorOmniQuery) {
        match key {
            EnemyBehaviorKey::Idle => {
                records.strategy0 = None;
            },
            EnemyBehaviorKey::Chase { .. } => {
                records.strategy1 = None;
            },
            EnemyBehaviorKey::Circle { .. } => {
                records.strategy2 = None;
            },
        }
    }

    fn add_components(self, records: &mut EnemyBehaviorOmniQuery) {
        match self {
            EnemyBehavior::Idle => {
                records.strategy0 = Some(EnemyBehaviorIdle);
            },
            EnemyBehavior::Chase { target_entity, distance } => {
                records.strategy1 = Some(EnemyBehaviorChase { target_entity, distance });
            },
            EnemyBehavior::Circle { target_entity, distance, go_counter_clockwise } => {
                records.strategy2 = Some(
                    EnemyBehaviorCircle { target_entity, distance, go_counter_clockwise },
                );
            },
        }
    }

    fn update_into_components(self, records: &mut EnemyBehaviorOmniQuery) -> (res: Result<
        (),
        Self,
    >) {
        match self {
            EnemyBehavior::Idle => {
                if records.strategy0.is_some() {
                    Ok(())
                } else {
                    Err(EnemyBehavior::Idle)
                }
            },
            EnemyBehavior::Chase { target_entity, distance } => {
                match &mut records.strategy1 {
                    Some(record) => {
                        record.distance = distance;
                        Ok(())
                    },
                    None => Err(EnemyBehavior::Chase { target_entity, distance }),
                }
            },
            EnemyBehavior::Circle { target_entity, distance, go_counter_clockwise } => {
                match &mut records.strategy2 {
                    Some(record) => {
                        record.distance = distance;
                        Ok(())
                    },
                    None => Err(
                        EnemyBehavior::Circle { target_entity, distance, go_counter_clockwise },
                    ),
                }
            },
        }
    }
}

} // verus!
