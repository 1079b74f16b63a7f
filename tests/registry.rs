use erc721::{ERC721Error, ERC721Token, ERC721};

#[test]
fn test_minting() {
    let mut erc721 = ERC721::new();
    erc721.mint("Alice".to_string(), 1, "Token1".to_string());

    assert_eq!(erc721.balance_of(&"Alice".to_string()), 1);
    assert_eq!(erc721.owner_of(1).unwrap(), "Alice");
}

#[test]
fn test_transfer() {
    let mut erc721 = ERC721::new();
    erc721.mint("Alice".to_string(), 1, "Token1".to_string());

    assert_eq!(erc721.transfer("Alice".to_string(), "Bob".to_string(), 1), Ok(()));
    assert_eq!(erc721.balance_of(&"Alice".to_string()), 0);
    assert_eq!(erc721.balance_of(&"Bob".to_string()), 1);
    assert_eq!(erc721.owner_of(1).unwrap(), "Bob");
}

#[test]
fn test_transfer_fail() {
    let mut erc721 = ERC721::new();
    erc721.mint("Alice".to_string(), 1, "Token1".to_string());

    let result = erc721.transfer("Bob".to_string(), "Charlie".to_string(), 1);
    assert_eq!(result.unwrap_err().to_string(), "Transfer failed: Not the owner");
}

#[test]
fn failed_transfer_leaves_state_unchanged() {
    let mut erc721 = ERC721::new();
    erc721.mint("Alice".to_string(), 1, "Token1".to_string());

    let result = erc721.transfer("Bob".to_string(), "Charlie".to_string(), 1);
    assert_eq!(result, Err(ERC721Error::NotOwner));
    assert_eq!(erc721.owner_of(1).unwrap(), "Alice");
    assert_eq!(erc721.balance_of(&"Alice".to_string()), 1);
    assert_eq!(erc721.balance_of(&"Bob".to_string()), 0);
    assert_eq!(erc721.balance_of(&"Charlie".to_string()), 0);
}

#[test]
fn owner_of_unknown_token_on_empty_registry() {
    let erc721 = ERC721::new();
    assert_eq!(erc721.owner_of(999), Err(ERC721Error::TokenNotFound));
}

#[test]
fn balance_of_unknown_identity_is_zero() {
    let erc721 = ERC721::new();
    assert_eq!(erc721.balance_of(&"NoSuchOwner".to_string()), 0);
}

#[test]
fn transfer_of_unknown_token_fails_and_changes_nothing() {
    let mut erc721 = ERC721::new();
    erc721.mint("Alice".to_string(), 1, "Token1".to_string());

    let result = erc721.transfer("Alice".to_string(), "Bob".to_string(), 2);
    assert_eq!(result, Err(ERC721Error::TokenNotFound));
    assert_eq!(erc721.owner_of(1).unwrap(), "Alice");
    assert_eq!(erc721.owner_of(2), Err(ERC721Error::TokenNotFound));
    assert_eq!(erc721.balance_of(&"Alice".to_string()), 1);
    assert_eq!(erc721.balance_of(&"Bob".to_string()), 0);
}

#[test]
fn transfer_moves_one_token_of_several() {
    let mut erc721 = ERC721::new();
    erc721.mint("Alice".to_string(), 1, "Token1".to_string());
    erc721.mint("Alice".to_string(), 2, "Token2".to_string());
    erc721.mint("Bob".to_string(), 3, "Token3".to_string());
    assert_eq!(erc721.balance_of(&"Alice".to_string()), 2);

    assert_eq!(erc721.transfer("Alice".to_string(), "Bob".to_string(), 2), Ok(()));
    assert_eq!(erc721.balance_of(&"Alice".to_string()), 1);
    assert_eq!(erc721.balance_of(&"Bob".to_string()), 2);
    assert_eq!(erc721.owner_of(1).unwrap(), "Alice");
    assert_eq!(erc721.owner_of(2).unwrap(), "Bob");
    assert_eq!(erc721.owner_of(3).unwrap(), "Bob");
}

#[test]
fn transfer_to_self_keeps_balance() {
    let mut erc721 = ERC721::new();
    erc721.mint("Alice".to_string(), 7, "Token7".to_string());

    assert_eq!(erc721.transfer("Alice".to_string(), "Alice".to_string(), 7), Ok(()));
    assert_eq!(erc721.owner_of(7).unwrap(), "Alice");
    assert_eq!(erc721.balance_of(&"Alice".to_string()), 1);
}

#[test]
fn transfer_back_and_forth() {
    let mut erc721 = ERC721::new();
    erc721.mint("Alice".to_string(), 1, "Token1".to_string());

    assert_eq!(erc721.transfer("Alice".to_string(), "Bob".to_string(), 1), Ok(()));
    assert_eq!(erc721.transfer("Alice".to_string(), "Bob".to_string(), 1), Err(ERC721Error::NotOwner));
    assert_eq!(erc721.transfer("Bob".to_string(), "Alice".to_string(), 1), Ok(()));
    assert_eq!(erc721.owner_of(1).unwrap(), "Alice");
    assert_eq!(erc721.balance_of(&"Alice".to_string()), 1);
    assert_eq!(erc721.balance_of(&"Bob".to_string()), 0);
}

#[test]
fn remint_overwrites_record_and_counts_again() {
    let mut erc721 = ERC721::new();
    erc721.mint("Alice".to_string(), 1, "Token1".to_string());
    erc721.mint("Bob".to_string(), 1, "Token1b".to_string());

    assert_eq!(erc721.owner_of(1).unwrap(), "Bob");
    assert_eq!(erc721.balance_of(&"Alice".to_string()), 1);
    assert_eq!(erc721.balance_of(&"Bob".to_string()), 1);
}

#[test]
fn remint_to_same_owner_double_counts() {
    let mut erc721 = ERC721::new();
    erc721.mint("Alice".to_string(), 1, "Token1".to_string());
    erc721.mint("Alice".to_string(), 1, "Token1".to_string());

    assert_eq!(erc721.owner_of(1).unwrap(), "Alice");
    assert_eq!(erc721.balance_of(&"Alice".to_string()), 2);
}

#[test]
fn largest_token_id() {
    let mut erc721 = ERC721::new();
    erc721.mint("Alice".to_string(), u64::MAX, "Last".to_string());
    assert_eq!(erc721.owner_of(u64::MAX).unwrap(), "Alice");
    assert_eq!(erc721.owner_of(0), Err(ERC721Error::TokenNotFound));
}

#[test]
fn queries_are_repeatable() {
    let mut erc721 = ERC721::new();
    erc721.mint("Alice".to_string(), 1, "Token1".to_string());

    let first_owner = erc721.owner_of(1).unwrap().clone();
    let first_balance = erc721.balance_of(&"Alice".to_string());
    assert_eq!(erc721.owner_of(1).unwrap(), &first_owner);
    assert_eq!(erc721.balance_of(&"Alice".to_string()), first_balance);
    assert_eq!(erc721.owner_of(5), erc721.owner_of(5));
}

#[test]
fn error_messages() {
    assert_eq!(ERC721Error::TokenNotFound.to_string(), "Token not found");
    assert_eq!(ERC721Error::NotOwner.to_string(), "Transfer failed: Not the owner");
    assert_eq!(ERC721Error::TransferFailed.to_string(), "Transfer failed");
}

#[test]
fn token_record_holds_its_fields() {
    let token = ERC721Token::new(4, "Dana".to_string(), "Meta".to_string());
    assert_eq!(token.id, 4);
    assert_eq!(token.owner, "Dana");
    assert_eq!(token.metadata, "Meta");
}
