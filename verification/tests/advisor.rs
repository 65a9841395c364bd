//! Engine behavior on an interpreted schema: selection with hysteresis and
//! the per-cycle reconciliation of behavior records.

use yoetz::advisor::{update_advisor, YoetzAdvisor, YoetzSuggestion};
use yoetz::dynamic::{DynKey, DynRecord, DynRecords, DynSuggestion};
use yoetz::schema::{FieldRole, SuggestionSignature};

/// Idle (no fields) and Chase { key target, input dist }.
fn chase_schema() -> SuggestionSignature {
    SuggestionSignature {
        variants: vec![vec![], vec![FieldRole::Key, FieldRole::Input]],
    }
}

/// Idle (no fields) and Circle { key target, input dist, state ccw }.
fn circle_schema() -> SuggestionSignature {
    SuggestionSignature {
        variants: vec![
            vec![],
            vec![FieldRole::Key, FieldRole::Input, FieldRole::State],
        ],
    }
}

fn sugg(sig: &SuggestionSignature, variant: usize, fields: Vec<i64>) -> DynSuggestion {
    DynSuggestion {
        signature: sig.clone(),
        variant,
        fields,
    }
}

#[test]
fn scenario_chase_with_consistency_bonus() {
    let sig = chase_schema();
    let mut advisor: YoetzAdvisor<DynSuggestion> = YoetzAdvisor::new(2);
    let mut records = DynRecords::new(sig.clone());
    let target = 7;

    // Cycle 1: only Chase { target, dist 5 } with score 5.
    advisor.suggest(5, sugg(&sig, 1, vec![target, 5]));
    update_advisor(&mut advisor, &mut records);
    assert_eq!(
        advisor.active_key(),
        &Some(DynKey {
            variant: 1,
            key_fields: vec![target],
        })
    );
    assert_eq!(records.slots[0], None);
    assert_eq!(
        records.slots[1],
        Some(DynRecord {
            fields: vec![target, 5],
        })
    );

    // Cycle 2: Chase { target, dist 3 } at 7 and Idle at 5.  Chase wins
    // (7 + bonus 2 = 9 > 5) and is patched in place: dist becomes 3.
    advisor.suggest(7, sugg(&sig, 1, vec![target, 3]));
    advisor.suggest(5, sugg(&sig, 0, vec![]));
    update_advisor(&mut advisor, &mut records);
    assert_eq!(
        advisor.active_key(),
        &Some(DynKey {
            variant: 1,
            key_fields: vec![target],
        })
    );
    assert_eq!(
        records.slots[1],
        Some(DynRecord {
            fields: vec![target, 3],
        })
    );

    // Cycle 3: Idle at 6 first, then Chase at 4 (+2 bonus = 6).  The tie
    // keeps the first suggestion to reach the winning score: Idle wins.
    advisor.suggest(6, sugg(&sig, 0, vec![]));
    advisor.suggest(4, sugg(&sig, 1, vec![target, 8]));
    update_advisor(&mut advisor, &mut records);
    assert_eq!(
        advisor.active_key(),
        &Some(DynKey {
            variant: 0,
            key_fields: vec![],
        })
    );
    assert_eq!(records.slots[0], Some(DynRecord { fields: vec![] }));
    assert_eq!(records.slots[1], None);
}

#[test]
fn scenario_tie_is_order_dependent() {
    // As above, but in cycle 3 Chase is offered first: its effective score
    // 6 is stored, Idle's 6 does not exceed it, and Chase stays active.
    let sig = chase_schema();
    let mut advisor: YoetzAdvisor<DynSuggestion> = YoetzAdvisor::new(2);
    let mut records = DynRecords::new(sig.clone());
    let target = 7;

    advisor.suggest(5, sugg(&sig, 1, vec![target, 5]));
    update_advisor(&mut advisor, &mut records);
    advisor.suggest(7, sugg(&sig, 1, vec![target, 3]));
    advisor.suggest(5, sugg(&sig, 0, vec![]));
    update_advisor(&mut advisor, &mut records);

    advisor.suggest(4, sugg(&sig, 1, vec![target, 8]));
    advisor.suggest(6, sugg(&sig, 0, vec![]));
    update_advisor(&mut advisor, &mut records);
    assert_eq!(
        advisor.active_key(),
        &Some(DynKey {
            variant: 1,
            key_fields: vec![target],
        })
    );
    // Patched in place: dist refreshed to 8, identity unchanged.
    assert_eq!(
        records.slots[1],
        Some(DynRecord {
            fields: vec![target, 8],
        })
    );
    assert_eq!(records.slots[0], None);
}

#[test]
fn idle_cycle_retains_behavior() {
    let sig = chase_schema();
    let mut advisor: YoetzAdvisor<DynSuggestion> = YoetzAdvisor::new(2);
    let mut records = DynRecords::new(sig.clone());
    advisor.suggest(5, sugg(&sig, 1, vec![3, 10]));
    update_advisor(&mut advisor, &mut records);

    let records_before = records.clone();
    let active_before = advisor.active_key().clone();
    // No suggestion at all this cycle: everything stays as it was.
    update_advisor(&mut advisor, &mut records);
    assert_eq!(records, records_before);
    assert_eq!(advisor.active_key(), &active_before);
}

#[test]
fn first_suggestion_is_accepted_unconditionally() {
    let sig = chase_schema();
    let mut advisor: YoetzAdvisor<DynSuggestion> = YoetzAdvisor::new(0);
    let mut records = DynRecords::new(sig.clone());
    // Even a very low score becomes pending when nothing else is.
    advisor.suggest(-100, sugg(&sig, 1, vec![1, 1]));
    update_advisor(&mut advisor, &mut records);
    assert_eq!(
        advisor.active_key(),
        &Some(DynKey {
            variant: 1,
            key_fields: vec![1],
        })
    );
}

#[test]
fn bonus_only_for_matching_identity() {
    let sig = chase_schema();
    let mut advisor: YoetzAdvisor<DynSuggestion> = YoetzAdvisor::new(3);
    let mut records = DynRecords::new(sig.clone());
    advisor.suggest(5, sugg(&sig, 1, vec![1, 0]));
    update_advisor(&mut advisor, &mut records);

    // Chase of a different target gets no bonus: 6 < 5 + 3 is irrelevant,
    // what matters is that the active target's suggestion scores 5 + 3 = 8.
    advisor.suggest(5, sugg(&sig, 1, vec![1, 2]));
    advisor.suggest(6, sugg(&sig, 1, vec![2, 9]));
    update_advisor(&mut advisor, &mut records);
    assert_eq!(
        advisor.active_key(),
        &Some(DynKey {
            variant: 1,
            key_fields: vec![1],
        })
    );
    assert_eq!(records.slots[1], Some(DynRecord { fields: vec![1, 2] }));
}

#[test]
fn patch_keeps_key_and_state_fields() {
    let sig = circle_schema();
    let mut advisor: YoetzAdvisor<DynSuggestion> = YoetzAdvisor::new(2);
    let mut records = DynRecords::new(sig.clone());
    // Circle { target 1, dist 9, ccw 1 } is chosen: state initialized once.
    advisor.suggest(10, sugg(&sig, 1, vec![1, 9, 1]));
    update_advisor(&mut advisor, &mut records);
    assert_eq!(
        records.slots[1],
        Some(DynRecord {
            fields: vec![1, 9, 1],
        })
    );

    // Re-offered with a new dist and a different ccw draw: only the input
    // field is refreshed; key and state keep their old values.
    advisor.suggest(10, sugg(&sig, 1, vec![1, 4, 0]));
    update_advisor(&mut advisor, &mut records);
    assert_eq!(
        records.slots[1],
        Some(DynRecord {
            fields: vec![1, 4, 1],
        })
    );
    assert_eq!(
        advisor.active_key(),
        &Some(DynKey {
            variant: 1,
            key_fields: vec![1],
        })
    );
}

#[test]
fn identity_change_replaces_record_fully() {
    let sig = circle_schema();
    let mut advisor: YoetzAdvisor<DynSuggestion> = YoetzAdvisor::new(0);
    let mut records = DynRecords::new(sig.clone());
    advisor.suggest(10, sugg(&sig, 1, vec![1, 9, 1]));
    update_advisor(&mut advisor, &mut records);

    // Same variant, different key: a different behavior.  The record is
    // fully replaced, the state field re-initialized from the winner.
    advisor.suggest(20, sugg(&sig, 1, vec![2, 5, 0]));
    update_advisor(&mut advisor, &mut records);
    assert_eq!(
        records.slots[1],
        Some(DynRecord {
            fields: vec![2, 5, 0],
        })
    );
    assert_eq!(
        advisor.active_key(),
        &Some(DynKey {
            variant: 1,
            key_fields: vec![2],
        })
    );

    // A different variant: the old record is gone, exactly one attached.
    advisor.suggest(30, sugg(&sig, 0, vec![]));
    update_advisor(&mut advisor, &mut records);
    assert_eq!(records.slots[0], Some(DynRecord { fields: vec![] }));
    assert_eq!(records.slots[1], None);
}

#[test]
fn identity_round_trip_through_records() {
    let sig = circle_schema();
    let mut advisor: YoetzAdvisor<DynSuggestion> = YoetzAdvisor::new(0);
    let mut records = DynRecords::new(sig.clone());
    let s = sugg(&sig, 1, vec![4, 2, 1]);
    let expected = s.key();
    advisor.suggest(1, s);
    update_advisor(&mut advisor, &mut records);
    // The identity derived from the attached record equals the identity
    // derived from the original suggestion.
    assert_eq!(records.attached_key(1), Some(expected));
    assert_eq!(records.attached_key(0), None);
}

#[test]
fn desynchronized_slot_falls_back_to_replacement() {
    let sig = circle_schema();
    let mut advisor: YoetzAdvisor<DynSuggestion> = YoetzAdvisor::new(0);
    let mut records = DynRecords::new(sig.clone());
    advisor.suggest(10, sugg(&sig, 1, vec![1, 9, 1]));
    update_advisor(&mut advisor, &mut records);

    // Someone removed the record although the identity is still active.
    records.slots[1] = None;

    // The patch finds no record and falls back to a fresh insertion, state
    // field taken from the new suggestion.
    advisor.suggest(10, sugg(&sig, 1, vec![1, 4, 0]));
    update_advisor(&mut advisor, &mut records);
    assert_eq!(
        records.slots[1],
        Some(DynRecord {
            fields: vec![1, 4, 0],
        })
    );
    assert_eq!(
        advisor.active_key(),
        &Some(DynKey {
            variant: 1,
            key_fields: vec![1],
        })
    );
}

#[test]
fn key_eq_compares_variant_and_key_fields() {
    let a = DynKey {
        variant: 1,
        key_fields: vec![1, 2],
    };
    let b = DynKey {
        variant: 1,
        key_fields: vec![1, 2],
    };
    let c = DynKey {
        variant: 1,
        key_fields: vec![1, 3],
    };
    let d = DynKey {
        variant: 0,
        key_fields: vec![1, 2],
    };
    assert!(DynSuggestion::key_eq(&a, &b));
    assert!(!DynSuggestion::key_eq(&a, &c));
    assert!(!DynSuggestion::key_eq(&a, &d));
}

#[test]
fn key_projects_key_fields_only() {
    let sig = circle_schema();
    let s = DynSuggestion {
        signature: sig,
        variant: 1,
        fields: vec![42, 9, 1],
    };
    assert_eq!(
        s.key(),
        DynKey {
            variant: 1,
            key_fields: vec![42],
        }
    );
}
