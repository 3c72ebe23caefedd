use ssh_key::private::Ed25519Keypair;
use ssh_key::{HashAlg, LineEnding, PrivateKey};
use sshauth::errors::{Rejected, Verdict};
use sshauth::guard::{decimal_bytes, verify_in_window, NAMESPACE, WINDOW_WIDTH};
use sshauth::service::{window_verdict, AuthService, Policy};

fn window_signer(seed: u8) -> PrivateKey {
    PrivateKey::from(Ed25519Keypair::from_seed(&[seed; 32]))
}

fn raw_key(key: &PrivateKey) -> Vec<u8> {
    key.public_key().key_data().ed25519().unwrap().0.to_vec()
}

fn sign_in(key: &PrivateKey, namespace: &str, message: &[u8]) -> String {
    key.sign(namespace, HashAlg::Sha512, message).unwrap().to_pem(LineEnding::LF).unwrap()
}

fn sign_time(key: &PrivateKey, t: u64) -> String {
    sign_in(key, "s3", t.to_string().as_bytes())
}

fn service_with(key: &PrivateKey) -> AuthService {
    let mut service = AuthService::new(vec!["test1".to_owned()]);
    let line = key.public_key().to_openssh().unwrap();
    assert_eq!(service.handle_register("test1", &line), Verdict::Accepted);
    service
}

#[test]
fn policy_constants() {
    assert_eq!(WINDOW_WIDTH, 3);
    assert_eq!(NAMESPACE, "s3");
}

#[test]
fn decimal_bytes_are_the_decimal_digits() {
    assert_eq!(decimal_bytes(0), b"0".to_vec());
    assert_eq!(decimal_bytes(7), b"7".to_vec());
    assert_eq!(decimal_bytes(10), b"10".to_vec());
    assert_eq!(decimal_bytes(909), b"909".to_vec());
    assert_eq!(decimal_bytes(1_700_000_000), b"1700000000".to_vec());
    assert_eq!(decimal_bytes(u64::MAX), b"18446744073709551615".to_vec());
    for n in [1u64, 99, 100, 12345, 4_294_967_296] {
        assert_eq!(decimal_bytes(n), n.to_string().into_bytes());
    }
}

#[test]
fn verification_checks_key_namespace_and_message() {
    let key = window_signer(1);
    let envelope = sign_in(&key, "s3", b"1000");
    assert_eq!(verify_in_window(&raw_key(&key), 1000, &envelope), Some(1000));
    assert_eq!(verify_in_window(&raw_key(&key), 1000, &sign_in(&key, "s3", b"1003")), None);
    assert_eq!(verify_in_window(&raw_key(&key), 1000, &sign_in(&key, "other", b"1000")), None);
    assert_eq!(verify_in_window(&raw_key(&window_signer(2)), 1000, &envelope), None);
    assert_eq!(verify_in_window(&vec![1, 2, 3], 1000, &envelope), None);
    assert_eq!(verify_in_window(&raw_key(&key), 1000, "garbage"), None);
}

#[test]
fn window_covers_three_seconds() {
    let key = window_signer(1);
    let service = service_with(&key);
    let now = 1_700_000_000u64;
    let envelope = sign_time(&key, now);
    assert_eq!(service.handle_login_at("test1", &envelope, now), Verdict::Accepted);
    assert_eq!(service.handle_login_at("test1", &envelope, now + 1), Verdict::Accepted);
    assert_eq!(service.handle_login_at("test1", &envelope, now + 2), Verdict::Accepted);
    assert_eq!(
        service.handle_login_at("test1", &envelope, now + 3),
        Verdict::Rejected(Rejected::StaleOrReplayedSignature)
    );
    assert_eq!(
        service.handle_login_at("test1", &envelope, now + 1000),
        Verdict::Rejected(Rejected::StaleOrReplayedSignature)
    );
}

#[test]
fn a_future_timestamp_is_rejected() {
    let key = window_signer(1);
    let service = service_with(&key);
    let now = 1_700_000_000u64;
    let envelope = sign_time(&key, now + 1);
    assert_eq!(
        service.handle_login_at("test1", &envelope, now),
        Verdict::Rejected(Rejected::StaleOrReplayedSignature)
    );
    assert_eq!(service.handle_login_at("test1", &envelope, now + 1), Verdict::Accepted);
}

#[test]
fn window_login_keeps_no_record() {
    let key = window_signer(1);
    let service = service_with(&key);
    let envelope = sign_time(&key, 500);
    assert_eq!(service.handle_login_at("test1", &envelope, 500), Verdict::Accepted);
    assert_eq!(service.handle_login_at("test1", &envelope, 500), Verdict::Accepted);
    assert_eq!(service.handle_login_at("test1", &envelope, 502), Verdict::Accepted);
}

#[test]
fn a_signature_for_another_namespace_is_rejected() {
    let key = window_signer(1);
    let service = service_with(&key);
    let envelope = sign_in(&key, "file", b"500");
    assert_eq!(
        service.handle_login_at("test1", &envelope, 500),
        Verdict::Rejected(Rejected::StaleOrReplayedSignature)
    );
}

#[test]
fn a_message_that_is_no_timestamp_is_rejected() {
    let key = window_signer(1);
    let service = service_with(&key);
    assert_eq!(
        service.handle_login_at("test1", &sign_in(&key, "s3", b"0500"), 500),
        Verdict::Rejected(Rejected::StaleOrReplayedSignature)
    );
    assert_eq!(
        service.handle_login_at("test1", &sign_in(&key, "s3", b"hello"), 500),
        Verdict::Rejected(Rejected::StaleOrReplayedSignature)
    );
}

#[test]
fn verify_in_window_names_the_timestamp() {
    let key = window_signer(3);
    let raw = raw_key(&key);
    let envelope = sign_time(&key, 40);
    assert_eq!(verify_in_window(&raw, 39, &envelope), None);
    assert_eq!(verify_in_window(&raw, 40, &envelope), Some(40));
    assert_eq!(verify_in_window(&raw, 41, &envelope), Some(40));
    assert_eq!(verify_in_window(&raw, 42, &envelope), Some(40));
    assert_eq!(verify_in_window(&raw, 43, &envelope), None);
    assert_eq!(verify_in_window(&raw_key(&window_signer(4)), 40, &envelope), None);
}

#[test]
fn window_at_the_edges_of_time() {
    let key = window_signer(3);
    let raw = raw_key(&key);
    let zero = sign_time(&key, 0);
    assert_eq!(verify_in_window(&raw, 0, &zero), Some(0));
    assert_eq!(verify_in_window(&raw, 1, &zero), Some(0));
    assert_eq!(verify_in_window(&raw, 2, &zero), Some(0));
    assert_eq!(verify_in_window(&raw, 3, &zero), None);
    let last = sign_time(&key, u64::MAX);
    assert_eq!(verify_in_window(&raw, u64::MAX, &last), Some(u64::MAX));
    assert_eq!(verify_in_window(&raw, u64::MAX - 1, &last), None);
    let before_last = sign_time(&key, u64::MAX - 2);
    assert_eq!(verify_in_window(&raw, u64::MAX, &before_last), Some(u64::MAX - 2));
}

#[test]
fn window_verdict_by_cases() {
    assert_eq!(window_verdict(Ok(()), Some(5)), Verdict::Accepted);
    assert_eq!(
        window_verdict(Ok(()), None),
        Verdict::Rejected(Rejected::StaleOrReplayedSignature)
    );
    assert_eq!(
        window_verdict(Err(Rejected::KeyMismatch), Some(5)),
        Verdict::Rejected(Rejected::KeyMismatch)
    );
    assert_eq!(
        window_verdict(Err(Rejected::UnknownUser), None),
        Verdict::Rejected(Rejected::UnknownUser)
    );
}

#[test]
fn window_login_checks_the_user_first() {
    let key = window_signer(1);
    let service = service_with(&key);
    let envelope = sign_time(&key, 77);
    assert_eq!(
        service.handle_login_at("nobody", &envelope, 77),
        Verdict::Rejected(Rejected::UnknownUser)
    );
    let empty = AuthService::new(vec!["test1".to_owned()]);
    assert_eq!(
        empty.handle_login_at("test1", &envelope, 77),
        Verdict::Rejected(Rejected::UnregisteredUser)
    );
}

#[test]
fn the_policy_decides_what_a_second_login_gets() {
    let key = window_signer(1);
    let envelope = sign_time(&key, 900);
    let mut windowed = service_with(&key);
    assert_eq!(
        windowed.handle_login_under(Policy::TimeWindow, "test1", &envelope, 901),
        Verdict::Accepted
    );
    assert_eq!(
        windowed.handle_login_under(Policy::TimeWindow, "test1", &envelope, 902),
        Verdict::Accepted
    );
    assert_eq!(
        windowed.handle_login_under(Policy::TimeWindow, "test1", &envelope, 903),
        Verdict::Rejected(Rejected::StaleOrReplayedSignature)
    );
    let mut dedup = service_with(&key);
    assert_eq!(
        dedup.handle_login_under(Policy::DedupSet, "test1", &envelope, 5000),
        Verdict::Accepted
    );
    assert_eq!(
        dedup.handle_login_under(Policy::DedupSet, "test1", &envelope, 900),
        Verdict::Rejected(Rejected::StaleOrReplayedSignature)
    );
    assert_eq!(
        dedup.handle_login_under(Policy::TimeWindow, "test1", &envelope, 900),
        Verdict::Accepted
    );
}
