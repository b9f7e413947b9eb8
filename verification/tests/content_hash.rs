use rbuilder_constraints::primitives::constraints::{
    Constraints, ConstraintsMessage, MAX_CONSTRAINTS_PER_BLOCK,
};
use rbuilder_constraints::primitives::decimal::decimal_text;

fn constraints(block: u64, transactions: Vec<Vec<u8>>) -> Constraints {
    Constraints { message: ConstraintsMessage { block, transactions } }
}

#[test]
fn hash_is_that_of_the_encoding() {
    let c = constraints(0x0102030405060708, vec![vec![0xaa], vec![0xbb, 0xcc]]);
    let mut bytes = vec![4u8, 0, 0, 0];
    bytes.extend([8, 7, 6, 5, 4, 3, 2, 1]);
    bytes.extend([12, 0, 0, 0]);
    bytes.extend([8, 0, 0, 0]);
    bytes.extend([9, 0, 0, 0]);
    bytes.extend([0xaa, 0xbb, 0xcc]);
    assert_eq!(c.hash(), alloy_primitives::keccak256(&bytes).0);
}

#[test]
fn identifier_stands_for_the_content() {
    let a = constraints(1, vec![vec![1, 2], vec![3]]);
    assert_eq!(a.id(), a.clone().id());
    for other in [
        constraints(2, vec![vec![1, 2], vec![3]]),
        constraints(1, vec![vec![1], vec![2, 3]]),
        constraints(1, vec![vec![1, 2, 3]]),
        constraints(1, vec![]),
        constraints(1, vec![vec![]]),
    ] {
        assert_ne!(a.id(), other.id());
        assert_ne!(a.hash(), other.hash());
    }
    assert_ne!(constraints(1, vec![]).hash(), constraints(1, vec![vec![]]).hash());
}

#[test]
fn as_many_transactions_as_a_block_takes() {
    assert_eq!(MAX_CONSTRAINTS_PER_BLOCK, 256);
    assert!(constraints(1, vec![vec![1]; 256]).is_encodable());
    assert!(!constraints(1, vec![vec![1]; 257]).is_encodable());
    assert!(constraints(1, vec![]).is_encodable());
}

#[test]
fn numbers_in_decimal_notation() {
    for n in [0u64, 7, 9, 10, 11, 99, 100, 1234567890, u64::MAX] {
        assert_eq!(decimal_text(n), n.to_string());
    }
}
