//! The registry of users and the handshake protocol built on it.
use crate::encoding::{
    base64_bytes, base64_of, box_opened, box_public_key_of, decode_base64, encode_base64,
    init_sodium, open_box, random_key_pair, random_nonce, text_from_utf8, utf8_text, KEY_BYTES,
    NONCE_BYTES,
};
use crate::table::{
    entry_view, table_contains, table_contents, table_entries, table_get, table_insert, table_new,
    table_remove, UserEntry, UserTable,
};
use vstd::prelude::*;

verus! {

/// Seconds of inactivity after which a record may be evicted.
pub const IDLE_WINDOW: u64 = 900;

/// What the registry keeps of one user, apart from the name that keys it.
pub ghost struct UserView {
    pub pubkey: Seq<u8>,
    pub nonce: Seq<u8>,
    pub last_active: u64,
}

/// The users that a store's contents stand for.
pub open spec fn users_view(t: Map<Seq<char>, (Seq<u8>, Seq<u8>, u64)>) -> Map<Seq<char>, UserView> {
    t.map_values(|e: (Seq<u8>, Seq<u8>, u64)| UserView { pubkey: e.0, nonce: e.1, last_active: e.2 })
}

/// The users are keyed by the names that the store holds.
pub broadcast proof fn lemma_users_view_dom(t: Map<Seq<char>, (Seq<u8>, Seq<u8>, u64)>)
    ensures
        #[trigger] users_view(t).dom() == t.dom(),
{
    assert(users_view(t).dom() =~= t.dom());
}

/// A user whose last activity lies more than the idle window before `now`.
pub open spec fn is_idle(u: UserView, now: u64) -> bool {
    u.last_active as int + IDLE_WINDOW < now as int
}

/// The users that survive an eviction at time `now`.
pub open spec fn evicted(m: Map<Seq<char>, UserView>, now: u64) -> Map<Seq<char>, UserView> {
    Map::new(|k: Seq<char>| m.contains_key(k) && !is_idle(m[k], now), |k: Seq<char>| m[k])
}

/// A user after a new nonce was issued to it at time `now`; its last
/// activity never goes back.
pub open spec fn rotated(u: UserView, nonce: Seq<u8>, now: u64) -> UserView {
    UserView {
        pubkey: u.pubkey,
        nonce,
        last_active: if now > u.last_active { now } else { u.last_active },
    }
}

/// Why a registration was refused.
#[derive(Clone, Copy, Debug, PartialEq, Eq, Structural)]
pub enum RegisterError {
    InvalidKeyEncoding,
    InvalidKeyFormat,
    NameTaken,
}

impl RegisterError {
    /// The text that a caller is shown for this error.
    pub fn message(&self) -> (r: String)
        ensures
            r@ == self.message_spec(),
    {
        match self {
            RegisterError::InvalidKeyEncoding => String::from_str("invalid key encoding"),
            RegisterError::InvalidKeyFormat => String::from_str("cannot convert key"),
            RegisterError::NameTaken => String::from_str("name exists"),
        }
    }

    pub open spec fn message_spec(&self) -> Seq<char> {
        match self {
            RegisterError::InvalidKeyEncoding => "invalid key encoding"@,
            RegisterError::InvalidKeyFormat => "cannot convert key"@,
            RegisterError::NameTaken => "name exists"@,
        }
    }
}

/// What registering `name` with the base64 key text `key` gives against the
/// users `m`: the key's error first, then a taken name.
pub open spec fn register_outcome(m: Map<Seq<char>, UserView>, name: Seq<char>, key: Seq<char>) -> Result<Seq<u8>, RegisterError> {
    match base64_bytes(key) {
        None => Err(RegisterError::InvalidKeyEncoding),
        Some(k) => if k.len() != KEY_BYTES {
            Err(RegisterError::InvalidKeyFormat)
        } else if m.contains_key(name) {
            Err(RegisterError::NameTaken)
        } else {
            Ok(k)
        },
    }
}

/// The users after registering `name` with key text `key` and nonce `nonce` at
/// time `now`: unchanged when the registration is refused.
pub open spec fn after_register(m: Map<Seq<char>, UserView>, name: Seq<char>, key: Seq<char>, nonce: Seq<u8>, now: u64) -> Map<Seq<char>, UserView> {
    match register_outcome(m, name, key) {
        Ok(k) => m.insert(name, UserView { pubkey: k, nonce, last_active: now }),
        Err(_) => m,
    }
}

/// The plaintext that the base64 box text `msg` gives for `name`: it must
/// decode, open under the server's secret key `sk`, the user's key and the
/// user's current nonce, and be valid text.
pub open spec fn decode_outcome(m: Map<Seq<char>, UserView>, sk: Seq<u8>, name: Seq<char>, msg: Seq<char>) -> Option<Seq<char>> {
    if !m.contains_key(name) {
        None
    } else {
        match base64_bytes(msg) {
            None => None,
            Some(c) => match box_opened(c, m[name].nonce, m[name].pubkey, sk) {
                None => None,
                Some(p) => utf8_text(p),
            },
        }
    }
}

/// The users after decoding `msg` for `name`, with `fresh` as the nonce to
/// issue on success at time `now`: unchanged on failure.
pub open spec fn after_decode(m: Map<Seq<char>, UserView>, sk: Seq<u8>, name: Seq<char>, msg: Seq<char>, fresh: Seq<u8>, now: u64) -> Map<Seq<char>, UserView> {
    if decode_outcome(m, sk, name, msg) is Some {
        m.insert(name, rotated(m[name], fresh, now))
    } else {
        m
    }
}

/// The text an optional string holds, if any.
pub open spec fn opt_text(o: Option<String>) -> Option<Seq<char>> {
    match o {
        Some(s) => Some(s@),
        None => None,
    }
}

/// The public view of one user: its name, its key as base64 text and the
/// time of its last activity.
pub struct UserJson {
    pub last_active: u64,
    pub pubkey: String,
    pub name: String,
}

impl UserJson {
    /// Whether this entry shows the user of its name in `m` as it is.
    pub open spec fn describes(&self, m: Map<Seq<char>, UserView>) -> bool {
        &&& m.contains_key(self.name@)
        &&& self.pubkey@ == base64_of(m[self.name@].pubkey)
        &&& self.last_active == m[self.name@].last_active
    }

    /// The public view of the user `name` with the stored entry `e`.
    pub fn from_entry(name: String, e: &UserEntry) -> (j: UserJson)
        ensures
            j.name@ == name@,
            j.pubkey@ == base64_of(e.0@),
            j.last_active == e.2,
    {
        UserJson { last_active: e.2, pubkey: encode_base64(&e.0), name }
    }
}

/// The answer to a registration: whether it succeeded, the error's text
/// (empty on success) and the issued nonce's base64 text.
pub struct HandshakeResult {
    pub success: bool,
    pub err: String,
    pub nonce: Option<String>,
}

impl HandshakeResult {
    /// The answer that a registration's outcome gives.
    pub fn from_outcome(outcome: Result<String, RegisterError>) -> (r: HandshakeResult)
        ensures
            r.success == outcome is Ok,
            outcome is Ok ==> r.err@.len() == 0 && opt_text(r.nonce) == Some(outcome->Ok_0@),
            outcome is Err ==> r.err@ == outcome->Err_0.message_spec() && r.nonce is None,
    {
        match outcome {
            Ok(nonce) => HandshakeResult { success: true, err: String::new(), nonce: Some(nonce) },
            Err(e) => HandshakeResult { success: false, err: e.message(), nonce: None },
        }
    }

    /// The answer to a request that could not be read, with the reason.
    pub fn refused(reason: String) -> (r: HandshakeResult)
        ensures
            !r.success,
            r.err@ == reason@,
            r.nonce is None,
    {
        HandshakeResult { success: false, err: reason, nonce: None }
    }
}

/// What the background reaper does in one cycle.
pub enum ReaperAction {
    Stop,
    Evict,
}

/// The reaper's decision at the start of a cycle: it stops once asked to,
/// and evicts idle users otherwise.
pub fn reaper_step(stop_requested: bool) -> (r: ReaperAction)
    ensures
        stop_requested <==> r is Stop,
{
    if stop_requested {
        ReaperAction::Stop
    } else {
        ReaperAction::Evict
    }
}

/// The registry: its users, and the server's key pair, made once and never
/// changed.
pub struct GlobalState {
    data: UserTable,
    public_key: Vec<u8>,
    secret_key: Vec<u8>,
}

impl View for GlobalState {
    type V = Map<Seq<char>, UserView>;

    closed spec fn view(&self) -> Map<Seq<char>, UserView> {
        users_view(table_contents(self.data))
    }
}

impl GlobalState {
    /// The server's public key.
    pub closed spec fn server_public(&self) -> Seq<u8> {
        self.public_key@
    }

    /// The server's secret key.
    pub closed spec fn server_secret(&self) -> Seq<u8> {
        self.secret_key@
    }

    /// Every stored key and nonce has its construction's length, and so do
    /// the server's keys.
    pub closed spec fn wf(&self) -> bool {
        &&& table_contents(self.data).dom().finite()
        &&& forall|k: Seq<char>| #[trigger] table_contents(self.data).contains_key(k)
            ==> table_contents(self.data)[k].0.len() == KEY_BYTES && table_contents(self.data)[k].1.len() == NONCE_BYTES
        &&& self.public_key@.len() == KEY_BYTES
        &&& self.secret_key@.len() == KEY_BYTES
    }

    /// A registry with no users and a freshly made key pair.
    pub fn new() -> (r: GlobalState)
        ensures
            r.wf(),
            r@ == Map::<Seq<char>, UserView>::empty(),
            r.server_public().len() == KEY_BYTES,
            r.server_secret().len() == KEY_BYTES,
            r.server_public() == box_public_key_of(r.server_secret()),
            r@.dom().finite(),
    {
        proof { broadcast use lemma_users_view_dom; }
        init_sodium();
        let (public_key, secret_key) = random_key_pair();
        let data = table_new();
        let r = GlobalState { data, public_key, secret_key };
        assert(r@ =~= Map::<Seq<char>, UserView>::empty());
        r
    }

    /// The server's public key.
    pub fn public_key(&self) -> (r: &Vec<u8>)
        ensures
            r@ == self.server_public(),
    {
        &self.public_key
    }

    /// The server's secret key.
    pub fn secret_key(&self) -> (r: &Vec<u8>)
        ensures
            r@ == self.server_secret(),
    {
        &self.secret_key
    }

    /// The server's public key as base64 text.
    pub fn public_key_base64(&self) -> (r: String)
        ensures
            r@ == base64_of(self.server_public()),
    {
        encode_base64(&self.public_key)
    }

    /// Whether a user is registered under `name`.
    pub fn check(&self, name: &String) -> (r: bool)
        ensures
            r == self@.contains_key(name@),
    {
        table_contains(&self.data, name)
    }

    /// Issues the nonce `fresh` to the user named `name` at time `now`, and
    /// returns its base64 text; nothing if no such user is registered.
    pub fn update_with_nonce(&mut self, name: &String, fresh: Vec<u8>, now: u64) -> (r: Option<String>)
        requires
            old(self).wf(),
            fresh@.len() == NONCE_BYTES,
        ensures
            final(self).wf(),
            final(self).server_public() == old(self).server_public(),
            final(self).server_secret() == old(self).server_secret(),
            final(self)@.dom().finite(),
            r is None <==> !old(self)@.contains_key(name@),
            r is None ==> final(self)@ == old(self)@,
            r is Some ==> r->Some_0@ == base64_of(fresh@),
            r is Some ==> final(self)@ == old(self)@.insert(name@, rotated(old(self)@[name@], fresh@, now)),
    {
        proof { broadcast use lemma_users_view_dom; }
        match table_get(&self.data, name) {
            None => None,
            Some(entry) => {
                let encoded = encode_base64(&fresh);
                let (pubkey, _, time) = entry;
                let when: u64 = if now > time { now } else { time };
                let ghost before = table_contents(self.data);
                table_insert(&mut self.data, name.clone(), (pubkey, fresh, when));
                assert(self@ =~= users_view(before).insert(name@, rotated(users_view(before)[name@], fresh@, now)));
                Some(encoded)
            },
        }
    }

    /// Issues a random nonce to the user named `name` at time `now`, and
    /// returns its base64 text; nothing if no such user is registered.
    pub fn update(&mut self, name: &String, now: u64) -> (r: Option<String>)
        requires
            old(self).wf(),
        ensures
            final(self).wf(),
            final(self).server_public() == old(self).server_public(),
            final(self).server_secret() == old(self).server_secret(),
            final(self)@.dom().finite(),
            r is None <==> !old(self)@.contains_key(name@),
            r is None ==> final(self)@ == old(self)@,
            r is Some ==> exists|n: Seq<u8>| n.len() == NONCE_BYTES && r->Some_0@ == base64_of(n)
                && final(self)@ == old(self)@.insert(name@, rotated(old(self)@[name@], n, now)),
    {
        proof { broadcast use lemma_users_view_dom; }
        let fresh = random_nonce();
        let r = self.update_with_nonce(name, fresh, now);
        r
    }

    /// Registers `name` with the base64 public key text `key`, the nonce
    /// `nonce` and time `now`, and returns the nonce's base64 text.
    pub fn add_user_with_nonce(&mut self, name: &String, key: &String, nonce: Vec<u8>, now: u64) -> (r: Result<String, RegisterError>)
        requires
            old(self).wf(),
            nonce@.len() == NONCE_BYTES,
        ensures
            final(self).wf(),
            final(self).server_public() == old(self).server_public(),
            final(self).server_secret() == old(self).server_secret(),
            final(self)@.dom().finite(),
            final(self)@ == after_register(old(self)@, name@, key@, nonce@, now),
            match (r, register_outcome(old(self)@, name@, key@)) {
                (Ok(s), Ok(_)) => s@ == base64_of(nonce@),
                (Err(e), Err(f)) => e == f,
                _ => false,
            },
    {
        proof { broadcast use lemma_users_view_dom; }
        let bytes = match decode_base64(key) {
            Ok(b) => b,
            Err(_) => {
                return Err(RegisterError::InvalidKeyEncoding);
            },
        };
        if bytes.len() != KEY_BYTES {
            return Err(RegisterError::InvalidKeyFormat);
        }
        if self.check(name) {
            return Err(RegisterError::NameTaken);
        }
        let encoded = encode_base64(&nonce);
        let ghost before = table_contents(self.data);
        let ghost k = bytes@;
        table_insert(&mut self.data, name.clone(), (bytes, nonce, now));
        assert(self@ =~= users_view(before).insert(name@, UserView { pubkey: k, nonce: nonce@, last_active: now }));
        Ok(encoded)
    }

    /// Registers `name` with the base64 public key text `key` at time `now`
    /// under a random nonce, and returns the nonce's base64 text.
    pub fn add_user(&mut self, name: &String, key: &String, now: u64) -> (r: Result<String, RegisterError>)
        requires
            old(self).wf(),
        ensures
            final(self).wf(),
            final(self).server_public() == old(self).server_public(),
            final(self).server_secret() == old(self).server_secret(),
            final(self)@.dom().finite(),
            exists|n: Seq<u8>| n.len() == NONCE_BYTES && final(self)@ == after_register(old(self)@, name@, key@, n, now)
                && match (r, register_outcome(old(self)@, name@, key@)) {
                (Ok(s), Ok(_)) => s@ == base64_of(n),
                (Err(e), Err(f)) => e == f,
                _ => false,
            },
    {
        proof { broadcast use lemma_users_view_dom; }
        let nonce = random_nonce();
        let r = self.add_user_with_nonce(name, key, nonce, now);
        r
    }

    /// Opens the base64 box text `msg` sent by `name` under the user's current
    /// nonce; on success issues the nonce `fresh` at time `now` and returns the
    /// plaintext with the new nonce's base64 text. On any failure nothing
    /// changes and both are absent.
    pub fn decode_with_nonce(&mut self, name: &String, msg: &String, fresh: Vec<u8>, now: u64) -> (r: (Option<String>, Option<String>))
        requires
            old(self).wf(),
            fresh@.len() == NONCE_BYTES,
        ensures
            final(self).wf(),
            final(self).server_public() == old(self).server_public(),
            final(self).server_secret() == old(self).server_secret(),
            final(self)@.dom().finite(),
            opt_text(r.0) == decode_outcome(old(self)@, old(self).server_secret(), name@, msg@),
            final(self)@ == after_decode(old(self)@, old(self).server_secret(), name@, msg@, fresh@, now),
            r.1 is Some <==> r.0 is Some,
            r.1 is Some ==> r.1->Some_0@ == base64_of(fresh@),
    {
        proof { broadcast use lemma_users_view_dom; }
        let entry = match table_get(&self.data, name) {
            Some(e) => e,
            None => {
                return (None, None);
            },
        };
        let boxed = match decode_base64(msg) {
            Ok(c) => c,
            Err(_) => {
                return (None, None);
            },
        };
        let plain = match open_box(&boxed, &entry.1, &entry.0, &self.secret_key) {
            Some(p) => p,
            None => {
                return (None, None);
            },
        };
        let text = match text_from_utf8(plain) {
            Some(t) => t,
            None => {
                return (None, None);
            },
        };
        let nonce = self.update_with_nonce(name, fresh, now);
        (Some(text), nonce)
    }

    /// Opens the base64 box text `msg` sent by `name` under the user's current
    /// nonce; on success issues a random nonce at time `now` and returns the
    /// plaintext with the new nonce's base64 text. On any failure nothing
    /// changes and both are absent.
    pub fn decode(&mut self, name: &String, msg: &String, now: u64) -> (r: (Option<String>, Option<String>))
        requires
            old(self).wf(),
        ensures
            final(self).wf(),
            final(self).server_public() == old(self).server_public(),
            final(self).server_secret() == old(self).server_secret(),
            final(self)@.dom().finite(),
            opt_text(r.0) == decode_outcome(old(self)@, old(self).server_secret(), name@, msg@),
            r.1 is Some <==> r.0 is Some,
            exists|n: Seq<u8>| n.len() == NONCE_BYTES
                && final(self)@ == after_decode(old(self)@, old(self).server_secret(), name@, msg@, n, now)
                && (r.1 is Some ==> r.1->Some_0@ == base64_of(n)),
    {
        proof { broadcast use lemma_users_view_dom; }
        let fresh = random_nonce();
        let r = self.decode_with_nonce(name, msg, fresh, now);
        r
    }

    /// A listing of every user: one entry per registered name, in no
    /// particular order.
    pub fn get_list(&self) -> (r: Vec<UserJson>)
        requires
            self.wf(),
        ensures
            r@.len() == self@.len(),
            forall|i: int| 0 <= i < r@.len() ==> #[trigger] r@[i].describes(self@),
            forall|i: int, j: int| 0 <= i < r@.len() && 0 <= j < r@.len() && i != j ==> r@[i].name@ != r@[j].name@,
            forall|k: Seq<char>| self@.contains_key(k) ==> exists|i: int| 0 <= i < r@.len() && #[trigger] r@[i].name@ == k,
    {
        let entries = table_entries(&self.data);
        let mut out: Vec<UserJson> = Vec::new();
        let mut i: usize = 0;
        while i < entries.len()
            invariant
                i <= entries@.len(),
                out@.len() == i,
                forall|j: int| 0 <= j < i ==> #[trigger] out@[j].name@ == entries@[j].0@,
                forall|j: int| 0 <= j < i ==> #[trigger] out@[j].describes(self@),
                forall|j: int| 0 <= j < entries@.len() ==> table_contents(self.data).contains_key(#[trigger] entries@[j].0@)
                    && table_contents(self.data)[entries@[j].0@] == entry_view(entries@[j].1),
            decreases entries@.len() - i,
        {
            let name = entries[i].0.clone();
            let item = UserJson::from_entry(name, &entries[i].1);
            out.push(item);
            i = i + 1;
        }
        proof {
            assert forall|k: Seq<char>| self@.contains_key(k) implies exists|i: int| 0 <= i < out@.len() && #[trigger] out@[i].name@ == k by {
                let j = choose|j: int| 0 <= j < entries@.len() && #[trigger] entries@[j].0@ == k;
                assert(out@[j].name@ == k);
            }
            assert forall|a: int, b: int| 0 <= a < out@.len() && 0 <= b < out@.len() && a != b implies out@[a].name@ != out@[b].name@ by {
                assert(out@[a].name@ == entries@[a].0@);
                assert(out@[b].name@ == entries@[b].0@);
            }
            let names = entries@.map_values(|e: (String, UserEntry)| e.0@);
            assert(names.no_duplicates()) by {
                assert forall|a: int, b: int| 0 <= a < names.len() && 0 <= b < names.len() && a != b implies names[a] != names[b] by {
                    assert(names[a] == entries@[a].0@);
                    assert(names[b] == entries@[b].0@);
                }
            }
            names.unique_seq_to_set();
            assert(names.to_set() =~= self@.dom()) by {
                assert forall|k: Seq<char>| names.to_set().contains(k) implies self@.dom().contains(k) by {
                    let j = choose|j: int| 0 <= j < names.len() && names[j] == k;
                    assert(entries@[j].0@ == k);
                }
                assert forall|k: Seq<char>| self@.dom().contains(k) implies names.to_set().contains(k) by {
                    let j = choose|j: int| 0 <= j < entries@.len() && #[trigger] entries@[j].0@ == k;
                    assert(names[j] == k);
                }
            }
        }
        out
    }

    /// Removes every user idle at time `now`, and returns how many went.
    pub fn clean_up(&mut self, now: u64) -> (r: usize)
        requires
            old(self).wf(),
        ensures
            final(self).wf(),
            final(self).server_public() == old(self).server_public(),
            final(self).server_secret() == old(self).server_secret(),
            final(self)@.dom().finite(),
            final(self)@ == evicted(old(self)@, now),
            r as int == old(self)@.len() - final(self)@.len(),
    {
        proof { broadcast use lemma_users_view_dom; }
        let ghost m0 = table_contents(self.data);
        let entries = table_entries(&self.data);
        let mut removed: usize = 0;
        let mut i: usize = 0;
        while i < entries.len()
            invariant
                i <= entries@.len(),
                self.public_key@ == old(self).public_key@,
                self.secret_key@ == old(self).secret_key@,
                m0 == table_contents(old(self).data),
                old(self).wf(),
                forall|j: int| 0 <= j < entries@.len() ==> m0.contains_key(#[trigger] entries@[j].0@)
                    && m0[entries@[j].0@] == entry_view(entries@[j].1),
                forall|a: int, b: int| 0 <= a < entries@.len() && 0 <= b < entries@.len() && a != b ==> entries@[a].0@ != entries@[b].0@,
                forall|k: Seq<char>| m0.contains_key(k) ==> exists|j: int| 0 <= j < entries@.len() && #[trigger] entries@[j].0@ == k,
                table_contents(self.data) == Map::new(
                    |k: Seq<char>| m0.contains_key(k) && !(is_idle(users_view(m0)[k], now)
                        && exists|j: int| 0 <= j < i && #[trigger] entries@[j].0@ == k),
                    |k: Seq<char>| m0[k],
                ),
                table_contents(self.data).dom().finite(),
                removed as int + table_contents(self.data).len() == m0.len(),
                removed <= i,
            decreases entries@.len() - i,
        {
            let time = entries[i].1.2;
            let ghost k = entries@[i as int].0@;
            let ghost cur = table_contents(self.data);
            if time < now && now - time > IDLE_WINDOW {
                assert(cur.contains_key(k)) by {
                    if exists|j: int| 0 <= j < i && #[trigger] entries@[j].0@ == k {
                        let j = choose|j: int| 0 <= j < i && #[trigger] entries@[j].0@ == k;
                        assert(entries@[j].0@ != entries@[i as int].0@);
                    }
                }
                table_remove(&mut self.data, &entries[i].0);
                removed = removed + 1;
                assert(table_contents(self.data) =~= Map::new(
                    |k: Seq<char>| m0.contains_key(k) && !(is_idle(users_view(m0)[k], now)
                        && exists|j: int| 0 <= j < i + 1 && #[trigger] entries@[j].0@ == k),
                    |k: Seq<char>| m0[k],
                ));
            } else {
                assert(cur =~= Map::new(
                    |k: Seq<char>| m0.contains_key(k) && !(is_idle(users_view(m0)[k], now)
                        && exists|j: int| 0 <= j < i + 1 && #[trigger] entries@[j].0@ == k),
                    |k: Seq<char>| m0[k],
                ));
            }
            i = i + 1;
        }
        proof {
            assert(self@ =~= evicted(users_view(m0), now));
            assert(self@.dom() =~= table_contents(self.data).dom());
            assert(old(self)@.dom() =~= m0.dom());
        }
        removed
    }
}

} // verus!
