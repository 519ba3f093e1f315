use pos_chain::blockchain::blocks::{Block, Blockchain, ChainError};
use pos_chain::blockchain::pos::PosError;

fn preimage(index: u64, timestamp: u64, txn_data: &str, previous: &str) -> Vec<u8> {
    let mut bytes = Vec::new();
    bytes.extend_from_slice(&index.to_le_bytes());
    bytes.extend_from_slice(&timestamp.to_le_bytes());
    bytes.extend_from_slice(&(txn_data.len() as u64).to_le_bytes());
    bytes.extend_from_slice(txn_data.as_bytes());
    bytes.extend_from_slice(previous.as_bytes());
    bytes
}

fn expected_hash(index: u64, timestamp: u64, txn_data: &str, previous: &str) -> String {
    format!("{:x}", md5::compute(preimage(index, timestamp, txn_data, previous)))
}

fn assert_linked(chain: &Blockchain) {
    assert_eq!(chain.blocks[0].index, 0);
    for n in 0..chain.blocks.len() {
        let block = &chain.blocks[n];
        assert_eq!(block.index, n as u64);
        assert_eq!(
            block.current_block_hash,
            expected_hash(block.index, block.timestamp, &block.txn_data, &block.previous_block_hash)
        );
        if n > 0 {
            assert_eq!(block.previous_block_hash, chain.blocks[n - 1].current_block_hash);
        }
    }
}

#[test]
fn hash_is_md5_of_the_encoded_fields_in_hex() {
    let hash = Block::calculate_hash(3, 1_700_000_000, "Alice -> Bob, 5 ETH", "abc");
    assert_eq!(hash, expected_hash(3, 1_700_000_000, "Alice -> Bob, 5 ETH", "abc"));
    assert_eq!(hash.len(), 32);
    assert!(hash.chars().all(|c| c.is_ascii_digit() || ('a'..='f').contains(&c)));
}

#[test]
fn hash_of_known_bytes() {
    let bytes = preimage(0, 0, "", "");
    assert_eq!(bytes, vec![0u8; 24]);
    assert_eq!(Block::calculate_hash(0, 0, "", ""), "1681ffc6e046c7af98c9e6c232a3fe0a");
}

#[test]
fn hash_takes_payloads_that_are_not_ascii() {
    let hash = Block::calculate_hash(1, 2, "Zoë → Åsa, 5 ETH", "00ff");
    assert_eq!(hash, expected_hash(1, 2, "Zoë → Åsa, 5 ETH", "00ff"));
}

#[test]
fn hash_is_the_same_at_a_fixed_timestamp() {
    let a = Block::with_timestamp(4, 99, "pay".to_string(), "prev".to_string(), "v".to_string());
    let b = Block::with_timestamp(4, 99, "pay".to_string(), "prev".to_string(), "w".to_string());
    assert_eq!(a.current_block_hash, b.current_block_hash);
}

#[test]
fn hash_differs_at_different_timestamps() {
    let a = Block::with_timestamp(4, 99, "pay".to_string(), "prev".to_string(), "v".to_string());
    let b = Block::with_timestamp(4, 100, "pay".to_string(), "prev".to_string(), "v".to_string());
    assert_ne!(a.current_block_hash, b.current_block_hash);
}

#[test]
fn hash_tells_apart_fields_that_concatenate_alike() {
    assert_ne!(Block::calculate_hash(1, 1, "ab", "c"), Block::calculate_hash(1, 1, "a", "bc"));
    assert_ne!(Block::calculate_hash(1, 12, "x", "y"), Block::calculate_hash(11, 2, "x", "y"));
    assert_ne!(Block::calculate_hash(1, 1, "", "ab"), Block::calculate_hash(1, 1, "ab", ""));
}

#[test]
fn with_timestamp_keeps_the_fields() {
    let block = Block::with_timestamp(
        7,
        1234,
        "Jay -> Sharon, 10 ETH".to_string(),
        "feed".to_string(),
        "validator-1".to_string(),
    );
    assert_eq!(block.index, 7);
    assert_eq!(block.timestamp, 1234);
    assert_eq!(block.txn_data, "Jay -> Sharon, 10 ETH");
    assert_eq!(block.previous_block_hash, "feed");
    assert_eq!(block.validator, "validator-1");
    assert_eq!(block.current_block_hash, expected_hash(7, 1234, "Jay -> Sharon, 10 ETH", "feed"));
}

#[test]
fn new_block_carries_the_hash_of_its_fields() {
    let block = Block::new(2, "data".to_string(), "prev".to_string(), "v".to_string()).unwrap();
    assert_eq!(block.index, 2);
    assert_eq!(block.txn_data, "data");
    assert_eq!(block.previous_block_hash, "prev");
    assert_eq!(block.validator, "v");
    assert!(block.timestamp > 1_000_000_000);
    assert_eq!(block.current_block_hash, expected_hash(2, block.timestamp, "data", "prev"));
}

#[test]
fn new_chain_holds_the_genesis_block_and_an_empty_registry() {
    let chain = Blockchain::new().unwrap();
    assert_eq!(chain.blocks.len(), 1);
    let genesis = &chain.blocks[0];
    assert_eq!(genesis.index, 0);
    assert_eq!(genesis.txn_data, "Genesis Block");
    assert_eq!(genesis.previous_block_hash, "0000000000000000000");
    assert_eq!(genesis.validator, "Genesis Validator");
    assert!(chain.pos_mechanism.validators.is_empty());
    assert_eq!(chain.pos_mechanism.total_stake, 0);
    assert_eq!(chain.pos_mechanism.finalty_threshold, 85);
    assert_eq!(chain.pos_mechanism.penalty_percentage, 55);
    assert_linked(&chain);
    assert!(chain.is_intact());
}

#[test]
fn genesis_at_a_fixed_time_is_reproducible() {
    let a = Blockchain::with_genesis_time(1_600_000_000);
    let b = Blockchain::with_genesis_time(1_600_000_000);
    assert_eq!(a.blocks[0].timestamp, 1_600_000_000);
    assert_eq!(a.blocks[0].current_block_hash, b.blocks[0].current_block_hash);
    assert_eq!(
        a.blocks[0].current_block_hash,
        expected_hash(0, 1_600_000_000, "Genesis Block", "0000000000000000000")
    );
}

#[test]
fn add_block_on_an_empty_registry_appends_with_nobody_named() {
    let mut chain = Blockchain::new().unwrap();
    assert_eq!(chain.add_block("Alice -> Bob, 5 ETH".to_string()), Ok(()));
    assert_eq!(chain.add_block("Jay -> Sharon, 10 ETH".to_string()), Ok(()));
    assert_eq!(chain.blocks.len(), 3);
    assert_eq!(chain.blocks[1].txn_data, "Alice -> Bob, 5 ETH");
    assert_eq!(chain.blocks[2].txn_data, "Jay -> Sharon, 10 ETH");
    assert_eq!(chain.blocks[1].validator, "No Validator");
    assert_eq!(chain.blocks[2].validator, "No Validator");
    assert_linked(&chain);
    assert!(chain.is_intact());
}

#[test]
fn append_block_links_to_the_tip_and_records_the_proposal() {
    let mut chain = Blockchain::with_genesis_time(10);
    chain.add_validators("alice".to_string(), 70).unwrap();
    chain.add_validators("bob".to_string(), 30).unwrap();
    chain.append_block("first".to_string(), 11, Some("bob".to_string()));
    chain.append_block("second".to_string(), 12, None);
    chain.append_block("third".to_string(), 13, Some("alice".to_string()));
    assert_eq!(chain.blocks.len(), 4);
    assert_eq!(chain.blocks[1].validator, "bob");
    assert_eq!(chain.blocks[2].validator, "No Validator");
    assert_eq!(chain.blocks[3].validator, "alice");
    assert_eq!(chain.blocks[1].timestamp, 11);
    assert_eq!(chain.blocks[3].index, 3);
    assert_eq!(chain.blocks[3].current_block_hash, expected_hash(
        3,
        13,
        "third",
        &chain.blocks[2].current_block_hash,
    ));
    let registry = &chain.pos_mechanism;
    assert_eq!(registry.validators[0].last_proposed_block, 3);
    assert_eq!(registry.validators[1].last_proposed_block, 1);
    assert_eq!(registry.total_stake, 100);
    assert_linked(&chain);
    assert!(chain.is_intact());
}

#[test]
fn append_block_names_a_proposer_that_is_not_registered() {
    let mut chain = Blockchain::with_genesis_time(10);
    chain.add_validators("alice".to_string(), 70).unwrap();
    chain.append_block("first".to_string(), 11, Some("mallory".to_string()));
    assert_eq!(chain.blocks[1].validator, "mallory");
    assert_eq!(chain.pos_mechanism.validators.len(), 1);
    assert_eq!(chain.pos_mechanism.validators[0].last_proposed_block, 0);
    assert!(chain.is_intact());
}

#[test]
fn add_block_names_an_eligible_proposer_once_the_threshold_has_passed() {
    let mut chain = Blockchain::new().unwrap();
    chain.add_validators("alice".to_string(), 5).unwrap();
    for n in 1..=171u64 {
        chain.add_block(format!("entry {}", n)).unwrap();
    }
    for n in 1..=171usize {
        let expected = if n == 85 || n == 170 { "alice" } else { "No Validator" };
        assert_eq!(chain.blocks[n].validator, expected);
    }
    assert_eq!(chain.pos_mechanism.validators[0].last_proposed_block, 170);
    assert_linked(&chain);
    assert!(chain.is_intact());
}

#[test]
fn add_block_never_names_a_penalized_validator() {
    let mut chain = Blockchain::with_genesis_time(10);
    chain.add_validators("alice".to_string(), 70).unwrap();
    chain.add_validators("bob".to_string(), 30).unwrap();
    chain.penalize_validator("alice").unwrap();
    for n in 1..=120u64 {
        chain.add_block(format!("entry {}", n)).unwrap();
        let named = &chain.blocks[n as usize].validator;
        assert!(named == "bob" || named == "No Validator");
    }
    assert_linked(&chain);
}

#[test]
fn is_intact_tells_a_changed_block() {
    let mut chain = Blockchain::with_genesis_time(10);
    chain.append_block("first".to_string(), 11, None);
    chain.append_block("second".to_string(), 12, None);
    assert!(chain.is_intact());
    let mut payload = Blockchain::with_genesis_time(10);
    payload.append_block("first".to_string(), 11, None);
    payload.blocks[1].txn_data = "forged".to_string();
    assert!(!payload.is_intact());
    let mut order = Blockchain::with_genesis_time(10);
    order.append_block("first".to_string(), 11, None);
    order.append_block("second".to_string(), 12, None);
    order.blocks.swap(1, 2);
    assert!(!order.is_intact());
    let mut link = Blockchain::with_genesis_time(10);
    link.append_block("first".to_string(), 11, None);
    let resealed = Block::with_timestamp(1, 11, "first".to_string(), "beef".to_string(), "x".to_string());
    link.blocks[1] = resealed;
    assert!(!link.is_intact());
    let mut registry = Blockchain::with_genesis_time(10);
    registry.add_validators("alice".to_string(), 70).unwrap();
    registry.pos_mechanism.total_stake = 71;
    assert!(!registry.is_intact());
    let mut empty = Blockchain::with_genesis_time(10);
    empty.blocks.clear();
    assert!(!empty.is_intact());
}

#[test]
fn stake_changes_pass_through_to_the_registry() {
    let mut chain = Blockchain::with_genesis_time(10);
    assert_eq!(chain.add_validators("alice".to_string(), 70), Ok(()));
    assert_eq!(chain.add_validators("bob".to_string(), 30), Ok(()));
    assert_eq!(chain.pos_mechanism.total_stake, 100);
    assert_eq!(chain.update_validator("bob".to_string(), 50), Ok(()));
    assert_eq!(chain.pos_mechanism.total_stake, 120);
    assert_eq!(chain.penalize_validator("alice"), Ok(()));
    assert_eq!(chain.pos_mechanism.total_stake, 82);
    assert_eq!(chain.remove_validator("alice".to_string()), Ok(()));
    assert_eq!(chain.pos_mechanism.total_stake, 50);
    assert_eq!(chain.remove_validator("alice".to_string()), Err(PosError::UnknownValidator));
    assert_eq!(chain.update_validator("alice".to_string(), 1), Err(PosError::UnknownValidator));
    assert_eq!(chain.penalize_validator("alice"), Err(PosError::UnknownValidator));
    assert_eq!(chain.add_validators("carol".to_string(), u64::MAX), Err(PosError::StakeOverflow));
    assert_eq!(chain.pos_mechanism.total_stake, 50);
    assert_eq!(chain.blocks.len(), 1);
    assert!(chain.is_intact());
}

#[test]
fn block_of_a_clock_reading_is_the_block_made_at_that_second() {
    let block = Block::with_clock_reading(
        4,
        Some(99),
        "pay".to_string(),
        "prev".to_string(),
        "v".to_string(),
    )
    .unwrap();
    assert_eq!(block.index, 4);
    assert_eq!(block.timestamp, 99);
    assert_eq!(block.txn_data, "pay");
    assert_eq!(block.previous_block_hash, "prev");
    assert_eq!(block.validator, "v");
    assert_eq!(block.current_block_hash, expected_hash(4, 99, "pay", "prev"));
}

#[test]
fn no_block_where_the_clock_stands_before_the_epoch() {
    let r = Block::with_clock_reading(
        4,
        None,
        "pay".to_string(),
        "prev".to_string(),
        "v".to_string(),
    );
    assert_eq!(r.err(), Some(ChainError::ClockBeforeEpoch));
}

#[test]
fn chain_of_a_clock_reading_starts_at_that_second() {
    let chain = Blockchain::with_clock_reading(Some(1_600_000_000)).ok().unwrap();
    assert_eq!(chain.blocks.len(), 1);
    assert_eq!(chain.blocks[0].timestamp, 1_600_000_000);
    assert_eq!(
        chain.blocks[0].current_block_hash,
        Blockchain::with_genesis_time(1_600_000_000).blocks[0].current_block_hash
    );
    assert!(chain.is_intact());
}

#[test]
fn no_chain_where_the_clock_stands_before_the_epoch() {
    assert_eq!(Blockchain::with_clock_reading(None).err(), Some(ChainError::ClockBeforeEpoch));
}

#[test]
fn add_block_with_a_reading_appends_at_that_second() {
    let mut chain = Blockchain::with_genesis_time(10);
    chain.add_validators("alice".to_string(), 70).unwrap();
    assert_eq!(chain.add_block_with("first".to_string(), Some(11), Some("alice".to_string())), Ok(()));
    assert_eq!(chain.add_block_with("second".to_string(), Some(12), None), Ok(()));
    assert_eq!(chain.blocks.len(), 3);
    assert_eq!(chain.blocks[1].timestamp, 11);
    assert_eq!(chain.blocks[1].validator, "alice");
    assert_eq!(chain.blocks[2].timestamp, 12);
    assert_eq!(chain.blocks[2].validator, "No Validator");
    assert_eq!(chain.pos_mechanism.validators[0].last_proposed_block, 1);
    assert_linked(&chain);
    assert!(chain.is_intact());
}

#[test]
fn add_block_without_a_reading_changes_nothing() {
    let mut chain = Blockchain::with_genesis_time(10);
    chain.add_validators("alice".to_string(), 70).unwrap();
    chain.append_block("first".to_string(), 11, None);
    let tip = chain.blocks[1].current_block_hash.clone();
    assert_eq!(
        chain.add_block_with("second".to_string(), None, Some("alice".to_string())),
        Err(ChainError::ClockBeforeEpoch)
    );
    assert_eq!(chain.blocks.len(), 2);
    assert_eq!(chain.blocks[1].current_block_hash, tip);
    assert_eq!(chain.pos_mechanism.validators[0].last_proposed_block, 0);
    assert_eq!(chain.pos_mechanism.total_stake, 70);
    assert!(chain.is_intact());
}
