use pos_chain::blockchain::pos::PosMechanism;

fn seventy_thirty(threshold: u64) -> PosMechanism {
    let mut pos = PosMechanism::new(threshold, 55);
    pos.add_validator("A".to_string(), 70).unwrap();
    pos.add_validator("B".to_string(), 30).unwrap();
    pos
}

#[test]
fn empty_registry_selects_nobody() {
    let pos = PosMechanism::new(1, 55);
    for height in [0u64, 1, 5, 85, u64::MAX] {
        assert_eq!(pos.select_validator(height), None);
        assert_eq!(pos.pick_validator(height, 0), None);
    }
}

#[test]
fn registry_without_stake_selects_nobody() {
    let mut pos = PosMechanism::new(1, 55);
    pos.add_validator("A".to_string(), 0).unwrap();
    pos.add_validator("B".to_string(), 0).unwrap();
    assert_eq!(pos.select_validator(10), None);
    assert_eq!(pos.pick_validator(10, 0), None);
}

#[test]
fn pick_walks_the_validators_in_order() {
    let pos = seventy_thirty(1);
    assert_eq!(pos.pick_validator(10, 0), Some("A".to_string()));
    assert_eq!(pos.pick_validator(10, 69), Some("A".to_string()));
    assert_eq!(pos.pick_validator(10, 70), Some("B".to_string()));
    assert_eq!(pos.pick_validator(10, 99), Some("B".to_string()));
    assert_eq!(pos.pick_validator(10, 100), None);
    assert_eq!(pos.pick_validator(10, u64::MAX), None);
}

#[test]
fn pick_after_a_proposed_at_5_never_gives_a() {
    let mut pos = seventy_thirty(1);
    pos.update_last_proposed_block("A", 5).unwrap();
    for draw in 0..30u64 {
        assert_eq!(pos.pick_validator(5, draw), Some("B".to_string()));
    }
    for draw in 30..100u64 {
        assert_eq!(pos.pick_validator(5, draw), None);
    }
}

#[test]
fn select_after_a_proposed_at_5_gives_b_or_nobody() {
    let mut pos = seventy_thirty(1);
    pos.update_last_proposed_block("A", 5).unwrap();
    for _ in 0..500 {
        let chosen = pos.select_validator(5);
        assert!(chosen == None || chosen == Some("B".to_string()));
    }
}

#[test]
fn select_never_gives_an_inactive_validator() {
    let mut pos = seventy_thirty(1);
    pos.penalize_validator("B").unwrap();
    for _ in 0..500 {
        let chosen = pos.select_validator(10);
        assert!(chosen == None || chosen == Some("A".to_string()));
    }
    pos.reactivate_validator("B").unwrap();
    assert_eq!(pos.pick_validator(10, 70), Some("B".to_string()));
}

#[test]
fn pick_skips_inactive_validators_but_not_their_share_of_the_range() {
    let pos = seventy_thirty(1);
    let mut inactive = PosMechanism::new(1, 0);
    inactive.add_validator("A".to_string(), 70).unwrap();
    inactive.add_validator("B".to_string(), 30).unwrap();
    inactive.penalize_validator("A").unwrap();
    assert_eq!(inactive.total_stake, 100);
    assert_eq!(inactive.pick_validator(10, 0), Some("B".to_string()));
    assert_eq!(inactive.pick_validator(10, 29), Some("B".to_string()));
    assert_eq!(inactive.pick_validator(10, 30), None);
    assert_eq!(inactive.pick_validator(10, 99), None);
    assert_eq!(pos.pick_validator(10, 30), Some("A".to_string()));
}

#[test]
fn eligibility_needs_the_threshold_to_have_passed() {
    let mut pos = PosMechanism::new(3, 55);
    pos.add_validator("A".to_string(), 10).unwrap();
    assert_eq!(pos.pick_validator(2, 0), None);
    assert_eq!(pos.pick_validator(3, 0), Some("A".to_string()));
    pos.update_last_proposed_block("A", 7).unwrap();
    assert_eq!(pos.pick_validator(9, 0), None);
    assert_eq!(pos.pick_validator(10, 0), Some("A".to_string()));
    assert_eq!(pos.pick_validator(6, 0), None);
    assert_eq!(pos.pick_validator(0, 0), None);
}

#[test]
fn validator_without_stake_is_never_picked() {
    let mut pos = PosMechanism::new(0, 55);
    pos.add_validator("nothing".to_string(), 0).unwrap();
    pos.add_validator("B".to_string(), 2).unwrap();
    assert_eq!(pos.pick_validator(0, 0), Some("B".to_string()));
    assert_eq!(pos.pick_validator(0, 1), Some("B".to_string()));
    assert_eq!(pos.pick_validator(0, 2), None);
}

#[test]
fn select_draws_below_the_total_stake() {
    let mut pos = PosMechanism::new(0, 55);
    pos.add_validator("only".to_string(), 1).unwrap();
    for _ in 0..200 {
        assert_eq!(pos.select_validator(4), Some("only".to_string()));
    }
}

#[test]
fn select_reaches_every_eligible_validator() {
    let pos = seventy_thirty(1);
    let mut seen_a = false;
    let mut seen_b = false;
    for _ in 0..2000 {
        match pos.select_validator(10) {
            Some(address) => {
                assert!(address == "A" || address == "B");
                seen_a = seen_a || address == "A";
                seen_b = seen_b || address == "B";
            }
            None => panic!("every draw below the total falls to an eligible validator"),
        }
    }
    assert!(seen_a && seen_b);
}

#[test]
fn pick_handles_the_largest_total() {
    let mut pos = PosMechanism::new(0, 55);
    pos.add_validator("A".to_string(), u64::MAX - 1).unwrap();
    pos.add_validator("B".to_string(), 1).unwrap();
    assert_eq!(pos.pick_validator(0, u64::MAX - 2), Some("A".to_string()));
    assert_eq!(pos.pick_validator(0, u64::MAX - 1), Some("B".to_string()));
    assert_eq!(pos.pick_validator(0, u64::MAX), None);
}
