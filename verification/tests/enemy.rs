//! Engine behavior on the hand-written schema.

use yoetz::advisor::{update_advisor, YoetzAdvisor, YoetzSuggestion};
use yoetz::enemy::{
    EnemyBehavior, EnemyBehaviorChase, EnemyBehaviorCircle, EnemyBehaviorIdle, EnemyBehaviorKey,
    EnemyBehaviorOmniQuery,
};

#[test]
fn scenario_on_the_hand_written_schema() {
    let mut advisor: YoetzAdvisor<EnemyBehavior> = YoetzAdvisor::new(2);
    let mut records = EnemyBehaviorOmniQuery::new();
    let target_entity = 7;

    // Cycle 1: only Chase at 5.
    advisor.suggest(
        5,
        EnemyBehavior::Chase {
            target_entity,
            distance: 5,
        },
    );
    update_advisor(&mut advisor, &mut records);
    assert_eq!(
        advisor.active_key(),
        &Some(EnemyBehaviorKey::Chase { target_entity })
    );
    assert_eq!(
        records.strategy1,
        Some(EnemyBehaviorChase {
            target_entity,
            distance: 5,
        })
    );

    // Cycle 2: Chase at 7 beats Idle at 5 and is patched in place.
    advisor.suggest(
        7,
        EnemyBehavior::Chase {
            target_entity,
            distance: 3,
        },
    );
    advisor.suggest(5, EnemyBehavior::Idle);
    update_advisor(&mut advisor, &mut records);
    assert_eq!(
        records.strategy1,
        Some(EnemyBehaviorChase {
            target_entity,
            distance: 3,
        })
    );

    // Cycle 3: Idle at 6 first ties Chase at 4 + 2 and wins as the first
    // to reach the winning score.
    advisor.suggest(6, EnemyBehavior::Idle);
    advisor.suggest(
        4,
        EnemyBehavior::Chase {
            target_entity,
            distance: 8,
        },
    );
    update_advisor(&mut advisor, &mut records);
    assert_eq!(advisor.active_key(), &Some(EnemyBehaviorKey::Idle));
    assert_eq!(records.strategy0, Some(EnemyBehaviorIdle));
    assert_eq!(records.strategy1, None);
}

#[test]
fn circling_direction_is_frozen_until_replaced() {
    let mut advisor: YoetzAdvisor<EnemyBehavior> = YoetzAdvisor::new(2);
    let mut records = EnemyBehaviorOmniQuery::new();

    advisor.suggest(
        100,
        EnemyBehavior::Circle {
            target_entity: 1,
            distance: 3,
            go_counter_clockwise: true,
        },
    );
    update_advisor(&mut advisor, &mut records);

    // Re-offered with a fresh random direction: the state field keeps the
    // direction chosen when the behavior was entered.
    advisor.suggest(
        100,
        EnemyBehavior::Circle {
            target_entity: 1,
            distance: 2,
            go_counter_clockwise: false,
        },
    );
    update_advisor(&mut advisor, &mut records);
    assert_eq!(
        records.strategy2,
        Some(EnemyBehaviorCircle {
            target_entity: 1,
            distance: 2,
            go_counter_clockwise: true,
        })
    );

    // A new target is a new behavior: the record is fully replaced and the
    // direction re-initialized.
    advisor.suggest(
        100,
        EnemyBehavior::Circle {
            target_entity: 2,
            distance: 5,
            go_counter_clockwise: false,
        },
    );
    update_advisor(&mut advisor, &mut records);
    assert_eq!(
        records.strategy2,
        Some(EnemyBehaviorCircle {
            target_entity: 2,
            distance: 5,
            go_counter_clockwise: false,
        })
    );
}

#[test]
fn hand_written_key_matches_identity_rules() {
    let a = EnemyBehavior::Chase {
        target_entity: 1,
        distance: 10,
    };
    let b = EnemyBehavior::Chase {
        target_entity: 1,
        distance: 99,
    };
    let c = EnemyBehavior::Chase {
        target_entity: 2,
        distance: 10,
    };
    // Same behavior while the key fields agree, whatever the inputs do.
    assert!(EnemyBehavior::key_eq(&a.key(), &b.key()));
    assert!(!EnemyBehavior::key_eq(&a.key(), &c.key()));
    assert!(!EnemyBehavior::key_eq(&a.key(), &EnemyBehavior::Idle.key()));
}

#[test]
fn desynchronized_record_is_reinserted() {
    let mut advisor: YoetzAdvisor<EnemyBehavior> = YoetzAdvisor::new(0);
    let mut records = EnemyBehaviorOmniQuery::new();
    advisor.suggest(
        1,
        EnemyBehavior::Chase {
            target_entity: 3,
            distance: 4,
        },
    );
    update_advisor(&mut advisor, &mut records);

    // The record vanished although the identity is still active.
    records.strategy1 = None;

    advisor.suggest(
        1,
        EnemyBehavior::Chase {
            target_entity: 3,
            distance: 6,
        },
    );
    update_advisor(&mut advisor, &mut records);
    assert_eq!(
        records.strategy1,
        Some(EnemyBehaviorChase {
            target_entity: 3,
            distance: 6,
        })
    );
    assert_eq!(
        advisor.active_key(),
        &Some(EnemyBehaviorKey::Chase { target_entity: 3 })
    );
}
