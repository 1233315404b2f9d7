//! Properties of the handshake protocol, stated over the registry's model.
use crate::encoding::{base64_bytes, box_opened, KEY_BYTES};
use crate::state::{
    after_decode, after_register, decode_outcome, evicted, register_outcome, RegisterError, UserView,
};
use vstd::prelude::*;

verus! {

/// Once a registration of a name has succeeded, every later registration of
/// that name fails, and with a well-formed key it fails because the name is
/// taken.
pub proof fn lemma_name_registered_once(
    m: Map<Seq<char>, UserView>,
    name: Seq<char>,
    first_key: Seq<char>,
    later_key: Seq<char>,
    nonce: Seq<u8>,
    now: u64,
)
    requires
        register_outcome(m, name, first_key) is Ok,
    ensures
        register_outcome(after_register(m, name, first_key, nonce, now), name, later_key) is Err,
        well_formed_key(later_key) ==> register_outcome(after_register(m, name, first_key, nonce, now), name, later_key)
            == Err::<Seq<u8>, RegisterError>(RegisterError::NameTaken),
{
}

/// How many of the registrations of `name` with the key texts `keys`, made one
/// after another with the nonces `nonces` at time `now`, succeed.
pub open spec fn successful_registrations(
    m: Map<Seq<char>, UserView>,
    name: Seq<char>,
    keys: Seq<Seq<char>>,
    nonces: Seq<Seq<u8>>,
    now: u64,
) -> nat
    decreases keys.len(),
{
    if keys.len() == 0 || nonces.len() == 0 {
        0
    } else {
        (if register_outcome(m, name, keys[0]) is Ok { 1nat } else { 0nat }) + successful_registrations(
            after_register(m, name, keys[0], nonces[0], now),
            name,
            keys.drop_first(),
            nonces.drop_first(),
            now,
        )
    }
}

/// A key text that decodes to a key of the right length.
pub open spec fn well_formed_key(key: Seq<char>) -> bool {
    base64_bytes(key) is Some && base64_bytes(key)->Some_0.len() == KEY_BYTES
}

/// Of any run of registrations of one name with well-formed keys, made while
/// the name is free, exactly one succeeds; once the name is taken, none does.
pub proof fn lemma_exactly_one_registration(
    m: Map<Seq<char>, UserView>,
    name: Seq<char>,
    keys: Seq<Seq<char>>,
    nonces: Seq<Seq<u8>>,
    now: u64,
)
    requires
        keys.len() == nonces.len(),
        forall|i: int| 0 <= i < keys.len() ==> well_formed_key(#[trigger] keys[i]),
    ensures
        m.contains_key(name) ==> successful_registrations(m, name, keys, nonces, now) == 0,
        !m.contains_key(name) && keys.len() > 0 ==> successful_registrations(m, name, keys, nonces, now) == 1,
    decreases keys.len(),
{
    if keys.len() > 0 {
        let next = after_register(m, name, keys[0], nonces[0], now);
        assert(well_formed_key(keys[0]));
        assert forall|i: int| 0 <= i < keys.drop_first().len() implies well_formed_key(#[trigger] keys.drop_first()[i]) by {
            assert(keys.drop_first()[i] == keys[i + 1]);
        }
        lemma_exactly_one_registration(next, name, keys.drop_first(), nonces.drop_first(), now);
        assert(next.contains_key(name));
    }
}

/// A decode succeeds only with a box that opens under the nonce most recently
/// issued to the name; after a success, the next decode succeeds only with a
/// box that opens under the newly issued nonce, so the consumed one no longer
/// serves.
pub proof fn lemma_decode_uses_latest_nonce(
    m: Map<Seq<char>, UserView>,
    sk: Seq<u8>,
    name: Seq<char>,
    msg: Seq<char>,
    fresh: Seq<u8>,
    now: u64,
    next_msg: Seq<char>,
)
    ensures
        decode_outcome(m, sk, name, msg) is Some ==> m.contains_key(name) && base64_bytes(msg) is Some
            && box_opened(base64_bytes(msg)->Some_0, m[name].nonce, m[name].pubkey, sk) is Some,
        decode_outcome(m, sk, name, msg) is Some
            && decode_outcome(after_decode(m, sk, name, msg, fresh, now), sk, name, next_msg) is Some
            ==> base64_bytes(next_msg) is Some
            && box_opened(base64_bytes(next_msg)->Some_0, fresh, m[name].pubkey, sk) is Some,
{
}

/// A failed decode leaves every user as it was, so a later correct box under
/// the same nonce fares exactly as it would have without the failure.
pub proof fn lemma_failed_decode_keeps_nonce(
    m: Map<Seq<char>, UserView>,
    sk: Seq<u8>,
    name: Seq<char>,
    bad_msg: Seq<char>,
    good_msg: Seq<char>,
    fresh: Seq<u8>,
    now: u64,
)
    requires
        decode_outcome(m, sk, name, bad_msg) is None,
    ensures
        after_decode(m, sk, name, bad_msg, fresh, now) == m,
        decode_outcome(after_decode(m, sk, name, bad_msg, fresh, now), sk, name, good_msg)
            == decode_outcome(m, sk, name, good_msg),
{
}

/// Evicting twice at the same time removes nothing the second time.
pub proof fn lemma_eviction_idempotent(m: Map<Seq<char>, UserView>, now: u64)
    ensures
        evicted(evicted(m, now), now) == evicted(m, now),
        evicted(m, now).len() - evicted(evicted(m, now), now).len() == 0,
{
    assert(evicted(evicted(m, now), now) =~= evicted(m, now));
}

/// A successful decode keeps the user's key and replaces its nonce with the
/// newly issued one, which differs from the old one whenever the issued value
/// does.
pub proof fn lemma_decode_rotates_nonce(
    m: Map<Seq<char>, UserView>,
    sk: Seq<u8>,
    name: Seq<char>,
    msg: Seq<char>,
    fresh: Seq<u8>,
    now: u64,
)
    requires
        decode_outcome(m, sk, name, msg) is Some,
        fresh != m[name].nonce,
    ensures
        after_decode(m, sk, name, msg, fresh, now).contains_key(name),
        after_decode(m, sk, name, msg, fresh, now)[name].nonce == fresh,
        after_decode(m, sk, name, msg, fresh, now)[name].nonce != m[name].nonce,
        after_decode(m, sk, name, msg, fresh, now)[name].pubkey == m[name].pubkey,
        after_decode(m, sk, name, msg, fresh, now)[name].last_active >= m[name].last_active,
{
}

} // verus!
