use waystone_overlay::remap::{
    plan_remap, retry_outcome, retry_step, rollback_remap, still_wanted, RemapPlan, RetryStep,
};

fn strings(v: &[&str]) -> Vec<String> {
    v.iter().map(|s| s.to_string()).collect()
}

#[test]
fn a_remap_releases_the_old_pair_and_claims_the_new_one() {
    match plan_remap("Insert", "  F9 ") {
        RemapPlan::Switch(s) => {
            assert_eq!(s.base, "F9");
            assert_eq!(s.release, strings(&["Insert", "Shift+Insert"]));
            assert_eq!(s.claim, strings(&["F9", "Shift+F9"]));
        }
        _ => panic!("expected a switch"),
    }
}

#[test]
fn a_remap_to_the_current_key_changes_nothing() {
    match plan_remap("F9", "F9") {
        RemapPlan::Unchanged(b) => assert_eq!(b, "F9"),
        _ => panic!("expected no change"),
    }
}

#[test]
fn a_refused_key_is_reported_with_its_reason() {
    match plan_remap("Insert", "KeyA") {
        RemapPlan::Rejected(e) => {
            assert_eq!(e, "typing key — it would get swallowed everywhere, chat included")
        }
        _ => panic!("expected a rejection"),
    }
    match plan_remap("Insert", "   ") {
        RemapPlan::Rejected(e) => assert_eq!(e, "invalid key"),
        _ => panic!("expected a rejection"),
    }
}

#[test]
fn a_failed_registration_rolls_back_to_the_old_pair() {
    let switch = match plan_remap("Insert", "F9") {
        RemapPlan::Switch(s) => s,
        _ => panic!("expected a switch"),
    };
    // F9 went through, Shift+F9 was taken.
    let rollback = rollback_remap(&switch, 1);
    assert_eq!(rollback.release, strings(&["F9"]));
    assert_eq!(rollback.claim, strings(&["Insert", "Shift+Insert"]));
    assert_eq!(rollback.error, "key already taken by another application");
    // Nothing went through.
    let rollback = rollback_remap(&switch, 0);
    assert!(rollback.release.is_empty());
}

#[test]
fn retries_drop_accelerators_of_a_replaced_base() {
    let pending = strings(&["Insert", "Shift+Insert", "Control+KeyE"]);
    assert_eq!(still_wanted(&pending, "F9"), strings(&["Control+KeyE"]));
    assert_eq!(still_wanted(&pending, "Insert"), pending);
    assert!(still_wanted(&Vec::new(), "Insert").is_empty());
}

#[test]
fn retries_wait_longer_each_round_and_stop_after_five() {
    let pending = strings(&["Insert"]);
    assert_eq!(retry_step(0, &pending), RetryStep::Wait(2));
    assert_eq!(retry_step(1, &pending), RetryStep::Wait(4));
    assert_eq!(retry_step(2, &pending), RetryStep::Wait(8));
    assert_eq!(retry_step(3, &pending), RetryStep::Wait(16));
    assert_eq!(retry_step(4, &pending), RetryStep::Wait(32));
    assert_eq!(retry_step(5, &pending), RetryStep::GiveUp);
    assert_eq!(retry_step(2, &Vec::new()), RetryStep::Done);
}

#[test]
fn a_successful_retry_drops_the_accelerator() {
    let tried = strings(&["Insert", "Shift+Insert", "Control+KeyE"]);
    assert_eq!(
        retry_outcome(&tried, &vec![true, false, true]),
        strings(&["Shift+Insert"])
    );
    assert!(retry_outcome(&tried, &vec![true, true, true]).is_empty());
}
