use handshake_registry::state::{
    reaper_step, GlobalState, HandshakeResult, ReaperAction, RegisterError, IDLE_WINDOW,
};
use sodiumoxide::crypto::box_;

struct Client {
    pk: box_::PublicKey,
    sk: box_::SecretKey,
}

fn client() -> Client {
    let _ = sodiumoxide::init();
    let (pk, sk) = box_::gen_keypair();
    Client { pk, sk }
}

fn key_text(c: &Client) -> String {
    base64::encode(&c.pk.0)
}

fn seal_for(state: &GlobalState, c: &Client, nonce_b64: &str, text: &[u8]) -> String {
    let nonce = box_::Nonce::from_slice(&base64::decode(nonce_b64).unwrap()).unwrap();
    let server = box_::PublicKey::from_slice(state.public_key()).unwrap();
    base64::encode(&box_::seal(text, &nonce, &server, &c.sk))
}

fn name(s: &str) -> String {
    s.to_string()
}

#[test]
fn alice_scenario() {
    let mut st = GlobalState::new();
    let alice = client();
    let n0 = st.add_user(&name("alice"), &key_text(&alice), 10).unwrap();
    assert_eq!(base64::decode(&n0).unwrap().len(), 24);
    let other = client();
    let again = st.add_user(&name("alice"), &key_text(&other), 11);
    assert_eq!(again, Err(RegisterError::NameTaken));
    assert_eq!(again.unwrap_err().message(), "name exists");
    assert_eq!(st.decode(&name("alice"), &name("garbage!!"), 12), (None, None));
    let msg = seal_for(&st, &alice, &n0, b"hello");
    let (text, nonce) = st.decode(&name("alice"), &msg, 13);
    assert_eq!(text, Some(name("hello")));
    assert!(nonce.is_some());
}

#[test]
fn bob_evicted_after_idle_window() {
    let mut st = GlobalState::new();
    let bob = client();
    let n0 = st.add_user(&name("bob"), &key_text(&bob), 100).unwrap();
    let removed = st.clean_up(100 + IDLE_WINDOW + 1);
    assert_eq!(removed, 1);
    assert!(!st.check(&name("bob")));
    let msg = seal_for(&st, &bob, &n0, b"hi");
    assert_eq!(st.decode(&name("bob"), &msg, 2000), (None, None));
}

#[test]
fn idle_window_boundary_keeps_user() {
    let mut st = GlobalState::new();
    let c = client();
    st.add_user(&name("carol"), &key_text(&c), 100).unwrap();
    assert_eq!(st.clean_up(100 + IDLE_WINDOW), 0);
    assert!(st.check(&name("carol")));
}

#[test]
fn round_trip_returns_plaintext_and_new_nonce() {
    let mut st = GlobalState::new();
    let c = client();
    let n0 = st.add_user(&name("dave"), &key_text(&c), 1).unwrap();
    let msg = seal_for(&st, &c, &n0, b"the quick brown fox");
    let (text, n1) = st.decode(&name("dave"), &msg, 2);
    assert_eq!(text, Some(name("the quick brown fox")));
    let n1 = n1.unwrap();
    assert_ne!(n1, n0);
    assert_eq!(base64::decode(&n1).unwrap().len(), 24);
}

#[test]
fn second_registration_of_a_name_is_refused() {
    let mut st = GlobalState::new();
    let a = client();
    let b = client();
    assert!(st.add_user(&name("erin"), &key_text(&a), 0).is_ok());
    assert_eq!(st.add_user(&name("erin"), &key_text(&a), 0), Err(RegisterError::NameTaken));
    assert_eq!(st.add_user(&name("erin"), &key_text(&b), 0), Err(RegisterError::NameTaken));
    assert!(st.add_user(&name("frank"), &key_text(&b), 0).is_ok());
    assert_eq!(st.get_list().len(), 2);
}

#[test]
fn consumed_nonce_cannot_be_reused() {
    let mut st = GlobalState::new();
    let c = client();
    let n0 = st.add_user(&name("gina"), &key_text(&c), 0).unwrap();
    let first = seal_for(&st, &c, &n0, b"one");
    assert_eq!(st.decode(&name("gina"), &first, 1).0, Some(name("one")));
    assert_eq!(st.decode(&name("gina"), &first, 2), (None, None));
    let second = seal_for(&st, &c, &n0, b"two");
    assert_eq!(st.decode(&name("gina"), &second, 3), (None, None));
}

#[test]
fn failed_decode_keeps_nonce() {
    let mut st = GlobalState::new();
    let c = client();
    let n0 = st.add_user(&name("hank"), &key_text(&c), 0).unwrap();
    let good = seal_for(&st, &c, &n0, b"retry");
    let mut tampered = base64::decode(&good).unwrap();
    tampered[0] ^= 1;
    assert_eq!(st.decode(&name("hank"), &base64::encode(&tampered), 1), (None, None));
    let wrong_key = client();
    let forged = seal_for(&st, &wrong_key, &n0, b"retry");
    assert_eq!(st.decode(&name("hank"), &forged, 2), (None, None));
    assert_eq!(st.decode(&name("hank"), &good, 3).0, Some(name("retry")));
}

#[test]
fn non_text_plaintext_fails() {
    let mut st = GlobalState::new();
    let c = client();
    let n0 = st.add_user(&name("ivy"), &key_text(&c), 0).unwrap();
    let bad = seal_for(&st, &c, &n0, &[0xff, 0xfe]);
    assert_eq!(st.decode(&name("ivy"), &bad, 1), (None, None));
    let good = seal_for(&st, &c, &n0, b"ok");
    assert_eq!(st.decode(&name("ivy"), &good, 1).0, Some(name("ok")));
}

#[test]
fn eviction_twice_removes_once() {
    let mut st = GlobalState::new();
    let a = client();
    st.add_user(&name("old1"), &key_text(&a), 0).unwrap();
    st.add_user(&name("old2"), &key_text(&a), 5).unwrap();
    st.add_user(&name("new"), &key_text(&a), 2000).unwrap();
    assert_eq!(st.clean_up(2000), 2);
    assert_eq!(st.clean_up(2000), 0);
    assert!(st.check(&name("new")));
    assert_eq!(st.get_list().len(), 1);
}

#[test]
fn decode_refreshes_activity() {
    let mut st = GlobalState::new();
    let c = client();
    let n0 = st.add_user(&name("jo"), &key_text(&c), 0).unwrap();
    let msg = seal_for(&st, &c, &n0, b"ping");
    assert!(st.decode(&name("jo"), &msg, 800).0.is_some());
    assert_eq!(st.clean_up(1500), 0);
    assert!(st.check(&name("jo")));
    assert_eq!(st.get_list()[0].last_active, 800);
}

#[test]
fn invalid_key_encoding() {
    let mut st = GlobalState::new();
    let r = st.add_user(&name("kim"), &name("not base64 !!"), 0);
    assert_eq!(r, Err(RegisterError::InvalidKeyEncoding));
    assert_eq!(r.unwrap_err().message(), "invalid key encoding");
    assert!(!st.check(&name("kim")));
}

#[test]
fn invalid_key_format() {
    let mut st = GlobalState::new();
    let short = base64::encode(&[7u8; 31]);
    let r = st.add_user(&name("lee"), &short, 0);
    assert_eq!(r, Err(RegisterError::InvalidKeyFormat));
    assert_eq!(r.unwrap_err().message(), "cannot convert key");
    assert!(!st.check(&name("lee")));
}

#[test]
fn unknown_name_decodes_to_nothing() {
    let mut st = GlobalState::new();
    assert_eq!(st.decode(&name("nobody"), &name("AAAA"), 0), (None, None));
    assert_eq!(st.update(&name("nobody"), 0), None);
}

#[test]
fn update_issues_new_nonce() {
    let mut st = GlobalState::new();
    let c = client();
    let n0 = st.add_user(&name("max"), &key_text(&c), 0).unwrap();
    let n1 = st.update(&name("max"), 1).unwrap();
    assert_ne!(n0, n1);
    let stale = seal_for(&st, &c, &n0, b"x");
    assert_eq!(st.decode(&name("max"), &stale, 2), (None, None));
    let fresh = seal_for(&st, &c, &n1, b"x");
    assert_eq!(st.decode(&name("max"), &fresh, 3).0, Some(name("x")));
}

#[test]
fn listing_shows_key_and_time() {
    let mut st = GlobalState::new();
    let c = client();
    st.add_user(&name("ned"), &key_text(&c), 42).unwrap();
    let list = st.get_list();
    assert_eq!(list.len(), 1);
    assert_eq!(list[0].name, "ned");
    assert_eq!(list[0].pubkey, key_text(&c));
    assert_eq!(list[0].last_active, 42);
}

#[test]
fn server_key_pair() {
    let st = GlobalState::new();
    assert_eq!(st.public_key().len(), 32);
    assert_eq!(st.secret_key().len(), 32);
    let text = st.public_key_base64();
    assert_eq!(base64::decode(&text).unwrap(), *st.public_key());
    assert_eq!(text.len(), 44);
}

#[test]
fn handshake_results() {
    let ok = HandshakeResult::from_outcome(Ok(name("bm9uY2U=")));
    assert!(ok.success);
    assert_eq!(ok.err, "");
    assert_eq!(ok.nonce, Some(name("bm9uY2U=")));
    let taken = HandshakeResult::from_outcome(Err(RegisterError::NameTaken));
    assert!(!taken.success);
    assert_eq!(taken.err, "name exists");
    assert_eq!(taken.nonce, None);
    let bad = HandshakeResult::refused(name("bad body"));
    assert!(!bad.success);
    assert_eq!(bad.err, "bad body");
}

#[test]
fn reaper_decisions() {
    assert!(matches!(reaper_step(true), ReaperAction::Stop));
    assert!(matches!(reaper_step(false), ReaperAction::Evict));
}

#[test]
fn exactly_one_of_many_registrations_succeeds() {
    let mut st = GlobalState::new();
    let mut successes = 0;
    for t in 0..5u64 {
        let c = client();
        match st.add_user(&name("olga"), &key_text(&c), t) {
            Ok(_) => successes += 1,
            Err(e) => assert_eq!(e, RegisterError::NameTaken),
        }
    }
    assert_eq!(successes, 1);
    assert_eq!(st.get_list().len(), 1);
}

#[test]
fn listing_has_each_user_once() {
    let mut st = GlobalState::new();
    let c = client();
    for n in ["pia", "quinn", "rose"] {
        st.add_user(&name(n), &key_text(&c), 7).unwrap();
    }
    let mut names: Vec<String> = st.get_list().into_iter().map(|u| u.name).collect();
    names.sort();
    assert_eq!(names, vec![name("pia"), name("quinn"), name("rose")]);
}
