use zebra_crosslink::fat_pointer::MalValidator;
use zebra_crosslink::roster::{
    apportion_finalizer_rewards, tenderlink_roster_from_internal, update_roster_for_block,
    update_roster_for_cmd, FinalizerNames, SortedRosterMember, StakingAction, StakingActionKind,
    POS_TOTAL_REWARD,
};

fn key(b: u8) -> [u8; 32] {
    [b; 32]
}

fn powers(roster: &[MalValidator]) -> Vec<u64> {
    roster.iter().map(|v| v.voting_power).collect()
}

fn action(kind: StakingActionKind, val: u64, target: u8, source: u8) -> StakingAction {
    StakingAction {
        kind,
        val,
        target: key(target),
        source: key(source),
        insecure_target_name: format!("target-{target}"),
        insecure_source_name: format!("source-{source}"),
    }
}

#[test]
fn apportioning_hands_rounding_remainder_to_largest_finalizer() {
    let mut roster = vec![
        MalValidator::new(key(1), 1),
        MalValidator::new(key(2), 2),
        MalValidator::new(key(3), 0),
        MalValidator::new(key(4), 4),
    ];
    apportion_finalizer_rewards(&mut roster, POS_TOTAL_REWARD);

    // Shares of 6000 over a total stake of 7: 857, 1714, 0 and 3428 rounded
    // down; the largest finalizer also gets the one zatoshi left over.
    assert_eq!(powers(&roster), vec![1 + 857, 2 + 1714, 0, 4 + 3429]);
    assert_eq!(powers(&roster).iter().sum::<u64>(), 7 + 6000);
    assert_eq!(roster[2].public_key, key(3));
}

#[test]
fn apportioning_breaks_stake_ties_towards_the_first_finalizer() {
    let mut roster = vec![
        MalValidator::new(key(1), 1),
        MalValidator::new(key(2), 3),
        MalValidator::new(key(3), 3),
    ];
    apportion_finalizer_rewards(&mut roster, 10);

    // Shares of 10 over 7: 1, 4 and 4 rounded down; the first of the two
    // largest finalizers takes the remaining 1.
    assert_eq!(powers(&roster), vec![2, 3 + 5, 3 + 4]);
}

#[test]
fn apportioning_leaves_a_roster_without_stake_unchanged() {
    let mut roster = vec![MalValidator::new(key(1), 0), MalValidator::new(key(2), 0)];
    apportion_finalizer_rewards(&mut roster, POS_TOTAL_REWARD);
    assert_eq!(powers(&roster), vec![0, 0]);

    let mut empty: Vec<MalValidator> = Vec::new();
    apportion_finalizer_rewards(&mut empty, POS_TOTAL_REWARD);
    assert!(empty.is_empty());
}

#[test]
fn finalizer_names_replace_earlier_names() {
    let mut names = FinalizerNames::new();
    assert_eq!(names.get(&key(1)), None);
    names.insert(key(1), "alice".to_string());
    names.insert(key(2), "bob".to_string());
    names.insert(key(1), "carol".to_string());
    assert_eq!(names.get(&key(1)).map(String::as_str), Some("carol"));
    assert_eq!(names.get(&key(2)).map(String::as_str), Some("bob"));
    assert_eq!(names.get(&key(3)), None);
}

#[test]
fn add_command_creates_and_then_grows_a_finalizer() {
    let mut roster = Vec::new();
    let mut names = FinalizerNames::new();

    assert_eq!(
        update_roster_for_cmd(&mut roster, &mut names, &action(StakingActionKind::Add, 5, 1, 0)),
        1
    );
    assert_eq!(roster, vec![MalValidator::new(key(1), 5)]);
    assert_eq!(names.get(&key(1)).map(String::as_str), Some("target-1"));

    assert_eq!(
        update_roster_for_cmd(&mut roster, &mut names, &action(StakingActionKind::Add, 7, 1, 0)),
        1
    );
    assert_eq!(powers(&roster), vec![12]);
}

#[test]
fn invalid_commands_change_nothing() {
    let mut roster = vec![MalValidator::new(key(1), 5)];
    let mut names = FinalizerNames::new();

    // Subtracting from an absent finalizer.
    assert_eq!(
        update_roster_for_cmd(&mut roster, &mut names, &action(StakingActionKind::Sub, 1, 2, 0)),
        0
    );
    // Subtracting more than the finalizer holds.
    assert_eq!(
        update_roster_for_cmd(&mut roster, &mut names, &action(StakingActionKind::Sub, 6, 1, 0)),
        0
    );
    // Clearing to a value above the current stake.
    assert_eq!(
        update_roster_for_cmd(&mut roster, &mut names, &action(StakingActionKind::Clear, 9, 1, 0)),
        0
    );
    // Moving from an absent source.
    assert_eq!(
        update_roster_for_cmd(&mut roster, &mut names, &action(StakingActionKind::Move, 1, 1, 3)),
        0
    );
    assert_eq!(roster, vec![MalValidator::new(key(1), 5)]);
    assert_eq!(names.get(&key(3)), None);
}

#[test]
fn sub_clear_and_move_commands_adjust_stake() {
    let mut roster = vec![MalValidator::new(key(1), 10), MalValidator::new(key(2), 4)];
    let mut names = FinalizerNames::new();

    update_roster_for_cmd(&mut roster, &mut names, &action(StakingActionKind::Sub, 3, 1, 0));
    assert_eq!(powers(&roster), vec![7, 4]);

    update_roster_for_cmd(&mut roster, &mut names, &action(StakingActionKind::Clear, 2, 1, 0));
    assert_eq!(powers(&roster), vec![2, 4]);

    // Move 3 from finalizer 2 to finalizer 1.
    update_roster_for_cmd(&mut roster, &mut names, &action(StakingActionKind::Move, 3, 1, 2));
    assert_eq!(powers(&roster), vec![5, 1]);

    // Lower finalizer 1 to 1, moving the other 4 to a new finalizer 3.
    update_roster_for_cmd(&mut roster, &mut names, &action(StakingActionKind::MoveClear, 1, 3, 1));
    assert_eq!(powers(&roster), vec![1, 1, 4]);
    assert_eq!(roster[2].public_key, key(3));
    assert_eq!(names.get(&key(3)).map(String::as_str), Some("target-3"));
    assert_eq!(powers(&roster).iter().sum::<u64>(), 6);
}

#[test]
fn block_commands_apply_in_order_and_count_valid_ones() {
    let mut roster = Vec::new();
    let mut names = FinalizerNames::new();
    let actions = vec![
        action(StakingActionKind::Sub, 1, 1, 0),
        action(StakingActionKind::Add, 5, 1, 0),
        action(StakingActionKind::Sub, 2, 1, 0),
        action(StakingActionKind::Move, 9, 2, 1),
    ];
    assert_eq!(update_roster_for_block(&mut roster, &mut names, &actions), 2);
    assert_eq!(roster, vec![MalValidator::new(key(1), 3)]);
}

#[test]
fn sorted_roster_orders_by_stake_then_key_with_running_totals() {
    let mut low_key = [0u8; 32];
    low_key[31] = 1;
    let mut high_key = [0u8; 32];
    high_key[0] = 1;
    let vals = vec![
        MalValidator::new(low_key, 5),
        MalValidator::new(key(9), 10),
        MalValidator::new(high_key, 5),
        MalValidator::new(key(3), 0),
    ];
    let sorted = tenderlink_roster_from_internal(&vals);
    assert_eq!(
        sorted,
        vec![
            SortedRosterMember {
                pub_key: key(9),
                stake: 10,
                cumulative_stake: 10
            },
            SortedRosterMember {
                pub_key: high_key,
                stake: 5,
                cumulative_stake: 15
            },
            SortedRosterMember {
                pub_key: low_key,
                stake: 5,
                cumulative_stake: 20
            },
            SortedRosterMember {
                pub_key: key(3),
                stake: 0,
                cumulative_stake: 20
            },
        ]
    );
    assert!(tenderlink_roster_from_internal(&[]).is_empty());
}

#[test]
fn sorted_roster_does_not_depend_on_member_order() {
    let vals = vec![
        MalValidator::new(key(4), 7),
        MalValidator::new(key(2), 7),
        MalValidator::new(key(8), 1),
        MalValidator::new(key(5), 30),
    ];
    let mut reversed = vals.clone();
    reversed.reverse();
    let rotated = vec![vals[2], vals[3], vals[0], vals[1]];
    let first = tenderlink_roster_from_internal(&vals);
    assert_eq!(first, tenderlink_roster_from_internal(&reversed));
    assert_eq!(first, tenderlink_roster_from_internal(&rotated));
    assert_eq!(first.last().map(|m| m.cumulative_stake), Some(45));
}
