use dex_analytics::account::{get_nice_rand_str, token_entropy, token_text, Account};
use dex_analytics::sql::find_or_create_by_email;

const ALPHABET: &str = "123456789ABCDEFGHJKLMNPQRSTUVWXYZabcdefghijkmnopqrstuvwxyz";

#[test]
fn token_text_is_base58() {
    assert_eq!(token_text(&[1, 2, 3, 4, 5, 6, 7, 8, 9, 10, 11, 12, 13, 14]), "NVSVezva3bAQdzTQGD");
    assert_eq!(token_text(&[255; 14]), "2d7dWtQMvj9WttA3mMnW");
}

#[test]
fn token_text_keeps_leading_zeros() {
    assert_eq!(token_text(&[0; 14]), "11111111111111");
    assert_eq!(
        token_text(&[0, 0, 1, 255, 255, 255, 255, 255, 255, 255, 255, 255, 255, 255]),
        "113Bxs3zrfFUZbEPqY"
    );
}

#[test]
fn token_entropy_reads_base58() {
    assert_eq!(
        token_entropy("NVSVezva3bAQdzTQGD"),
        Some(vec![1, 2, 3, 4, 5, 6, 7, 8, 9, 10, 11, 12, 13, 14])
    );
    assert_eq!(token_entropy("11111111111111"), Some(vec![0; 14]));
    assert_eq!(token_entropy("he11owor1d"), Some(vec![0x04, 0x30, 0x5e, 0x2b, 0x24, 0x73, 0xf0, 0x58]));
    assert_eq!(token_entropy(""), Some(vec![]));
}

#[test]
fn token_entropy_rejects_characters_outside_the_alphabet() {
    for text in ["0", "O", "I", "l", "abc def", "abc-", "é"] {
        assert_eq!(token_entropy(text), None, "{}", text);
    }
}

#[test]
fn generated_token_round_trips() {
    for _ in 0..50 {
        let token = get_nice_rand_str();
        assert!(token.chars().all(|c| ALPHABET.contains(c)), "{}", token);
        assert!(token.len() >= 14 && token.len() <= 20, "{}", token);
        let entropy = token_entropy(&token).unwrap();
        assert_eq!(entropy.len(), 14);
        let mut bytes = [0u8; 14];
        bytes.copy_from_slice(&entropy);
        assert_eq!(token_text(&bytes), token);
    }
}

#[test]
fn generated_tokens_differ() {
    assert_ne!(get_nice_rand_str(), get_nice_rand_str());
}

#[test]
fn account_from_email() {
    let account = Account::from_email("a@b.c");
    assert_eq!(account.email, "a@b.c");
    assert_ne!(account.id, account.token);
    assert_eq!(token_entropy(&account.id).unwrap().len(), 14);
    assert_eq!(token_entropy(&account.token).unwrap().len(), 14);
}

#[test]
fn account_from_row() {
    let account = Account::from_row("i".to_owned(), "a@b.c".to_owned(), "t".to_owned());
    assert_eq!(account.id, "i");
    assert_eq!(account.email, "a@b.c");
    assert_eq!(account.token, "t");
}

#[test]
fn known_email_keeps_its_account() {
    let known = Account::from_row("i".to_owned(), "a@b.c".to_owned(), "t".to_owned());
    let enrollment = find_or_create_by_email(Some(known), "a@b.c");
    assert!(!enrollment.insert);
    assert_eq!(enrollment.account.id, "i");
    assert_eq!(enrollment.account.token, "t");
}

#[test]
fn new_email_gets_an_account_to_insert() {
    let enrollment = find_or_create_by_email(None, "new@b.c");
    assert!(enrollment.insert);
    assert_eq!(enrollment.account.email, "new@b.c");
    assert_eq!(token_entropy(&enrollment.account.token).unwrap().len(), 14);
}
