//! Scenario tests for the password obfuscation and the open field
//! enumerations.

use eaccess::hash_password;
use eaccess::NAccess;
use eaccess::NEnvironment;
use eaccess::NProtocol;
use eaccess::PaymentStatus;

#[test]
fn hash_exact_bytes() {
    // Componentwise ((b - 0x20) ^ k) + 0x20:
    // 0x41 -> 0x21 ^ 0x01 = 0x20 -> 0x40, and likewise for the next two.
    assert_eq!(
        hash_password(&[0x41, 0x42, 0x43], &[0x01, 0x02, 0x03]),
        vec![0x40, 0x40, 0x40]
    );
}

#[test]
fn hash_nontrivial_case() {
    // 'p' (0x70): 0x50 ^ 0x6B = 0x3B -> 0x5B; 'w' (0x77): 0x57 ^ 0x65 = 0x32 -> 0x52.
    assert_eq!(hash_password(b"pw", b"ke"), vec![0x5B, 0x52]);
}

#[test]
fn hash_wraps_modulo_256() {
    // 0x19 - 0x20 wraps to 0xF9; 0xF9 ^ 0x00 = 0xF9; 0xF9 + 0x20 wraps to 0x19.
    assert_eq!(hash_password(&[0x19], &[0x00]), vec![0x19]);
    // 0xFF - 0x20 = 0xDF; 0xDF ^ 0xFF = 0x20; 0x20 + 0x20 = 0x40.
    assert_eq!(hash_password(&[0xFF], &[0xFF]), vec![0x40]);
}

#[test]
fn hash_length_is_the_shorter_input() {
    assert_eq!(hash_password(b"longpassword", b"key").len(), 3);
    assert_eq!(hash_password(b"pw", b"muchlongerkey").len(), 2);
    assert_eq!(hash_password(b"same", b"same").len(), 4);
    assert_eq!(hash_password(b"", b"key").len(), 0);
    assert_eq!(hash_password(b"pw", b"").len(), 0);
}

#[test]
fn hash_drops_excess_password_bytes() {
    // The tail of a password longer than the key has no effect.
    assert_eq!(hash_password(b"abcdef", b"kk"), hash_password(b"ab", b"kk"));
}

#[test]
fn environment_named_literals() {
    assert_eq!(
        NEnvironment::from_text(b"PRODUCTION"),
        NEnvironment::Production
    );
    assert_eq!(
        NEnvironment::from_text(b"DEVELOPMENT"),
        NEnvironment::Development
    );
    assert_eq!(NEnvironment::Production.to_text(), b"PRODUCTION");
    assert_eq!(NEnvironment::Development.to_text(), b"DEVELOPMENT");
}

#[test]
fn environment_catch_all_round_trips() {
    let e = NEnvironment::from_text(b"STAGING");
    assert_eq!(e, NEnvironment::Other(b"STAGING".to_vec()));
    assert_eq!(e.to_text(), b"STAGING");
    // Case matters: only the exact literal is named.
    assert_eq!(
        NEnvironment::from_text(b"production"),
        NEnvironment::Other(b"production".to_vec())
    );
}

#[test]
fn protocol_named_literal() {
    assert_eq!(NProtocol::from_text(b"STORM"), NProtocol::Storm);
    assert_eq!(NProtocol::Storm.to_text(), b"STORM");
}

#[test]
fn protocol_catch_all_round_trips() {
    let p = NProtocol::from_text(b"SURGE");
    assert_eq!(p, NProtocol::Other(b"SURGE".to_vec()));
    assert_eq!(p.to_text(), b"SURGE");
}

#[test]
fn access_named_values() {
    assert_eq!(NAccess::from_text(Some(b"TRIAL")), NAccess::Trial);
    assert_eq!(NAccess::from_text(None), NAccess::Absent);
    assert_eq!(NAccess::Trial.to_text(), Some(b"TRIAL".to_vec()));
    assert_eq!(NAccess::Absent.to_text(), None);
}

#[test]
fn access_catch_all_round_trips() {
    let a = NAccess::from_text(Some(b"VIP"));
    assert_eq!(a, NAccess::Other(b"VIP".to_vec()));
    assert_eq!(a.to_text(), Some(b"VIP".to_vec()));
}

#[test]
fn payment_status_named_literals() {
    assert_eq!(PaymentStatus::from_text(b"NEED_BILL"), PaymentStatus::NeedBill);
    assert_eq!(PaymentStatus::from_text(b"FREE"), PaymentStatus::Free);
    assert_eq!(
        PaymentStatus::from_text(b"FREE_TO_PLAY"),
        PaymentStatus::FreeToPlay
    );
    assert_eq!(PaymentStatus::from_text(b"EXPIRED"), PaymentStatus::Expired);
    assert_eq!(
        PaymentStatus::from_text(b"NEW_TO_GAME"),
        PaymentStatus::NewToGame
    );
    assert_eq!(PaymentStatus::NeedBill.to_text(), b"NEED_BILL");
    assert_eq!(PaymentStatus::Free.to_text(), b"FREE");
    assert_eq!(PaymentStatus::FreeToPlay.to_text(), b"FREE_TO_PLAY");
    assert_eq!(PaymentStatus::Expired.to_text(), b"EXPIRED");
    assert_eq!(PaymentStatus::NewToGame.to_text(), b"NEW_TO_GAME");
}

#[test]
fn payment_status_catch_all_round_trips() {
    let p = PaymentStatus::from_text(b"COMPED");
    assert_eq!(p, PaymentStatus::Other(b"COMPED".to_vec()));
    assert_eq!(p.to_text(), b"COMPED");
    // A prefix of a named literal is not that literal.
    assert_eq!(
        PaymentStatus::from_text(b"FREE_"),
        PaymentStatus::Other(b"FREE_".to_vec())
    );
}
