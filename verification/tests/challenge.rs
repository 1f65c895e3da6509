use persepolis::challenge::{check, derive_display_code, fresh_seed};
use persepolis::errors::GuardReason;

const SEED_A: &str =
    "AAAAAAAAAAAAAAAAAAAAAAAAAAAAAAAAAAAAAAAAAAAAAAAAAAAAAAAAAAAAAAAAAAAAAAAAAAAA";
const SEED_B: &str = "abcdefghijabcdefghijabcdefghijabcdefghijabcdefghijabcdefghijabcdefghijklmnop";

#[test]
fn known_code_for_uniform_seed() {
    assert_eq!(SEED_A.len(), 76);
    assert_eq!(derive_display_code(SEED_A, "1234567890"), "e73f9d");
}

#[test]
fn known_code_for_mixed_seed() {
    assert_eq!(SEED_B.len(), 76);
    assert_eq!(derive_display_code(SEED_B, "9876543210"), "24da30");
}

#[test]
fn known_code_for_short_trainee_id() {
    // Identities shorter than seven characters fill the missing positions
    // with the NUL character.
    assert_eq!(derive_display_code(SEED_B, "98"), "8c0e63");
}

#[test]
fn code_depends_on_trainee_id() {
    let a = derive_display_code(SEED_B, "9876543210");
    let b = derive_display_code(SEED_B, "1234567890");
    assert_ne!(a, b);
}

#[test]
fn round_trip_passes() {
    let code = derive_display_code(SEED_A, "1234567890");
    assert_eq!(check(SEED_A, "1234567890", &code), Ok(true));
}

#[test]
fn round_trip_passes_for_generated_seed() {
    let seed = fresh_seed();
    assert_eq!(seed.chars().count(), 76);
    assert!(seed.chars().all(|c| c.is_ascii_alphanumeric()));
    let code = derive_display_code(&seed, "5550001234");
    assert_eq!(check(&seed, "5550001234", &code), Ok(true));
}

#[test]
fn spaces_in_submission_are_ignored() {
    // "e73f9d" with spaces sprinkled in still matches.
    assert_eq!(check(SEED_A, "1234567890", " e73 f9d "), Ok(true));
}

#[test]
fn single_character_change_fails() {
    let code = derive_display_code(SEED_A, "1234567890");
    assert_eq!(code, "e73f9d");
    for i in 0..code.len() {
        let mut tampered: Vec<char> = code.chars().collect();
        tampered[i] = if tampered[i] == 'z' { 'y' } else { 'z' };
        let tampered: String = tampered.into_iter().collect();
        assert_eq!(check(SEED_A, "1234567890", &tampered), Ok(false));
    }
}

#[test]
fn code_of_other_trainee_fails() {
    let other = derive_display_code(SEED_A, "5550001234");
    assert_ne!(other, "e73f9d");
    assert_eq!(check(SEED_A, "1234567890", &other), Ok(false));
}

#[test]
fn non_alphanumeric_submission_is_an_error() {
    assert_eq!(
        check(SEED_A, "1234567890", "e73f9d!"),
        Err(GuardReason::CodeNotAlphanumeric)
    );
    assert_eq!(
        check(SEED_A, "1234567890", "é73f9d"),
        Err(GuardReason::CodeNotAlphanumeric)
    );
}

#[test]
fn wrong_length_submission_fails() {
    assert_eq!(check(SEED_A, "1234567890", "e73f9"), Ok(false));
    assert_eq!(check(SEED_A, "1234567890", ""), Ok(false));
}

#[test]
fn fresh_seeds_differ() {
    // Two draws of 76 random alphanumeric characters; indistinguishable
    // seeds would make every guide request hand out the same code.
    assert_ne!(fresh_seed(), fresh_seed());
}
