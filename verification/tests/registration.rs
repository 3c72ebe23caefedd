use ssh_key::private::Ed25519Keypair;
use ssh_key::PrivateKey;
use sshauth::errors::{Rejected, Verdict, STATUS_ACCEPTED, STATUS_REJECTED};
use sshauth::identity::IdentityStore;
use sshauth::harness::InteractionRecord;
use sshauth::keys::{bytes_equal, KeyMaterial};
use sshauth::service::AuthService;

const RSA_LINE: &str = "ssh-rsa AAAAB3NzaC1yc2EAAAADAQABAAABAQCjTBFCPTn+es7YUBEEW3v3RXgQtNfDESymzRk9q+QVfSzE9Qw2r8PbFSX22G9Lj2kHU23mow2hPVnFAt9git0MPsRGMUzoaB9/jgpMosxRKu3UFtbJHzwI8qdfPnp/KsCEeO18U0JEQYFukL7Gz4QCXBg/zdaBlEJT82iREYo4l7Jy8PEoVm5uOjRCSqHxONerMBlIAjWQ9V622G4WPA4oAClUWkhjGq/7lqODdntfGIPfy8dbSS2vKIghbd8XSf4Odm3kFhR6b5f9/B2zIEHhSPVuDEILkQ3Yv4BuuELwMIiRPkJ6sxbh7dpAqD8PVyTbDxbSEs/fwUqWrViopc3B rsa@example";

fn signer(seed: u8) -> PrivateKey {
    PrivateKey::from(Ed25519Keypair::from_seed(&[seed; 32]))
}

fn public_line(key: &PrivateKey) -> String {
    key.public_key().to_openssh().unwrap()
}

fn raw_public(key: &PrivateKey) -> Vec<u8> {
    key.public_key().key_data().ed25519().unwrap().0.to_vec()
}

fn parse_public_key(text: &str) -> Option<KeyMaterial> {
    let record = InteractionRecord {
        args: vec!["register".to_owned(), "test1".to_owned()],
        data: text.to_owned(),
        status: 200,
        message: String::new(),
    };
    record.register_intent().map(|intent| intent.public_key)
}

fn users() -> Vec<String> {
    vec!["test1".to_owned(), "test2".to_owned(), "test3".to_owned()]
}

fn bound_bytes(store: &IdentityStore, user: &str) -> Option<Vec<u8>> {
    match store.lookup(user) {
        Some(KeyMaterial::Ed25519(bytes)) => Some(bytes.clone()),
        Some(KeyMaterial::Other) => panic!("a key that is not Ed25519 was bound"),
        None => None,
    }
}

#[test]
fn parse_public_key_yields_the_raw_key_bytes() {
    let key = signer(7);
    match parse_public_key(&public_line(&key)) {
        Some(KeyMaterial::Ed25519(bytes)) => {
            assert_eq!(bytes.len(), 32);
            assert_eq!(bytes, raw_public(&key));
        }
        other => panic!("unexpected parse: {:?}", other),
    }
}

#[test]
fn parse_public_key_tells_other_algorithms_apart() {
    assert!(matches!(parse_public_key(RSA_LINE), Some(KeyMaterial::Other)));
}

#[test]
fn parse_public_key_rejects_garbage() {
    assert!(parse_public_key("").is_none());
    assert!(parse_public_key("not a key").is_none());
    assert!(parse_public_key("ssh-ed25519 AAAA").is_none());
}

#[test]
fn first_registration_wins() {
    let first = signer(1);
    let second = signer(2);
    let mut service = AuthService::new(users());
    assert_eq!(service.handle_register("test1", &public_line(&first)), Verdict::Accepted);
    assert_eq!(
        service.handle_register("test1", &public_line(&second)),
        Verdict::Rejected(Rejected::AlreadyRegistered)
    );
    assert_eq!(bound_bytes(&service.identities, "test1"), Some(raw_public(&first)));
}

#[test]
fn registering_the_same_key_again_is_rejected() {
    let key = signer(1);
    let mut service = AuthService::new(users());
    assert_eq!(service.handle_register("test1", &public_line(&key)), Verdict::Accepted);
    assert_eq!(
        service.handle_register("test1", &public_line(&key)),
        Verdict::Rejected(Rejected::AlreadyRegistered)
    );
}

#[test]
fn registration_for_an_unknown_user_is_rejected() {
    let mut service = AuthService::new(users());
    let verdict = service.handle_register("mallory", &public_line(&signer(1)));
    assert_eq!(verdict, Verdict::Rejected(Rejected::UnknownUser));
    assert!(!service.identities.contains("mallory"));
    assert!(service.identities.lookup("mallory").is_none());
}

#[test]
fn malformed_key_is_rejected() {
    let mut service = AuthService::new(users());
    assert_eq!(
        service.handle_register("test1", "ssh-ed25519 not-base64"),
        Verdict::Rejected(Rejected::MalformedInput)
    );
    assert!(service.identities.lookup("test1").is_none());
}

#[test]
fn rsa_key_is_rejected_at_registration() {
    let mut service = AuthService::new(users());
    let verdict = service.handle_register("test1", RSA_LINE);
    assert_eq!(verdict, Verdict::Rejected(Rejected::UnsupportedAlgorithm));
    assert_eq!(verdict.status(), 418);
    assert!(service.identities.lookup("test1").is_none());
    assert_eq!(service.handle_register("test1", &public_line(&signer(3))), Verdict::Accepted);
}

#[test]
fn every_rejection_has_the_same_status() {
    let reasons = [
        Rejected::MalformedInput,
        Rejected::UnsupportedAlgorithm,
        Rejected::UnknownUser,
        Rejected::AlreadyRegistered,
        Rejected::UnregisteredUser,
        Rejected::KeyMismatch,
        Rejected::StaleOrReplayedSignature,
    ];
    for reason in reasons {
        assert_eq!(Verdict::Rejected(reason).status(), 418);
        assert!(!Verdict::Rejected(reason).is_accepted());
    }
    assert_eq!(Verdict::Accepted.status(), 200);
    assert!(Verdict::Accepted.is_accepted());
    assert_eq!(STATUS_ACCEPTED, 200);
    assert_eq!(STATUS_REJECTED, 418);
}

#[test]
fn verdict_follows_the_store_result() {
    assert_eq!(Verdict::from_result(Ok(())), Verdict::Accepted);
    assert_eq!(
        Verdict::from_result(Err(Rejected::KeyMismatch)),
        Verdict::Rejected(Rejected::KeyMismatch)
    );
}

#[test]
fn store_checks_user_then_binding_then_algorithm() {
    let mut store = IdentityStore::new(users());
    assert_eq!(store.register("nobody", KeyMaterial::Other), Err(Rejected::UnknownUser));
    assert_eq!(store.register("test2", KeyMaterial::Other), Err(Rejected::UnsupportedAlgorithm));
    assert!(store.lookup("test2").is_none());
    assert_eq!(store.register("test2", KeyMaterial::Ed25519(vec![9; 32])), Ok(()));
    assert_eq!(store.register("test2", KeyMaterial::Other), Err(Rejected::AlreadyRegistered));
    assert_eq!(
        store.register("test2", KeyMaterial::Ed25519(vec![8; 32])),
        Err(Rejected::AlreadyRegistered)
    );
    assert_eq!(bound_bytes(&store, "test2"), Some(vec![9; 32]));
    assert!(store.lookup("test1").is_none());
    assert!(store.lookup("test3").is_none());
}

#[test]
fn universe_lists_each_user_once() {
    let mut store =
        IdentityStore::new(vec!["a".to_owned(), "b".to_owned(), "a".to_owned()]);
    assert!(store.contains("a"));
    assert!(store.contains("b"));
    assert!(!store.contains("c"));
    assert_eq!(store.register("a", KeyMaterial::Ed25519(vec![1; 32])), Ok(()));
    assert_eq!(
        store.register("a", KeyMaterial::Ed25519(vec![2; 32])),
        Err(Rejected::AlreadyRegistered)
    );
    assert_eq!(bound_bytes(&store, "a"), Some(vec![1; 32]));
}

#[test]
fn empty_universe_knows_nobody() {
    let mut store = IdentityStore::new(Vec::new());
    assert!(!store.contains("test1"));
    assert_eq!(
        store.register("test1", KeyMaterial::Ed25519(vec![1; 32])),
        Err(Rejected::UnknownUser)
    );
}

#[test]
fn sequential_registrations_leave_exactly_one_winner() {
    let mut service = AuthService::new(users());
    let mut accepted = 0;
    let mut already = 0;
    for seed in 1..=8u8 {
        match service.handle_register("test3", &public_line(&signer(seed))) {
            Verdict::Accepted => accepted += 1,
            Verdict::Rejected(Rejected::AlreadyRegistered) => already += 1,
            other => panic!("registration ended in {:?}", other),
        }
    }
    assert_eq!(accepted, 1);
    assert_eq!(already, 7);
    assert_eq!(bound_bytes(&service.identities, "test3"), Some(raw_public(&signer(1))));
}

#[test]
fn key_helpers_compare_by_bytes() {
    let a = KeyMaterial::Ed25519(vec![1, 2, 3]);
    let b = KeyMaterial::Ed25519(vec![1, 2, 3]);
    let c = KeyMaterial::Ed25519(vec![1, 2, 4]);
    assert!(a.same_key(&b));
    assert!(!a.same_key(&c));
    assert!(!a.same_key(&KeyMaterial::Other));
    assert!(!KeyMaterial::Other.same_key(&KeyMaterial::Other));
    assert!(a.is_ed25519());
    assert!(!KeyMaterial::Other.is_ed25519());
    assert!(a.duplicate().same_key(&a));
    assert!(bytes_equal(&vec![], &vec![]));
    assert!(!bytes_equal(&vec![1], &vec![1, 1]));
    assert!(!bytes_equal(&vec![1, 2], &vec![1, 3]));
}
