//! The users' store: a hashbrown map from names to entries, behind wrappers
//! whose contracts speak of what the map holds.
use vstd::prelude::*;

verus! {

/// What the store keeps of one user: its public key, its current nonce and
/// the time, in seconds, of its last activity.
pub type UserEntry = (Vec<u8>, Vec<u8>, u64);

/// The store itself.
pub type UserTable = hashbrown::HashMap<String, UserEntry>;

#[verifier::external_type_specification]
#[verifier::external_body]
#[verifier::reject_recursive_types(K)]
#[verifier::reject_recursive_types(V)]
#[verifier::reject_recursive_types(S)]
pub struct ExHashMap<K, V, S>(hashbrown::HashMap<K, V, S>);

#[verifier::external_type_specification]
#[verifier::external_body]
pub struct ExDefaultHashBuilder(hashbrown::hash_map::DefaultHashBuilder);

/// What a store holds: each name with its entry.
pub uninterp spec fn table_contents(t: hashbrown::HashMap<String, (Vec<u8>, Vec<u8>, u64)>) -> Map<Seq<char>, (Seq<u8>, Seq<u8>, u64)>;

/// An entry as plain values.
pub open spec fn entry_view(e: UserEntry) -> (Seq<u8>, Seq<u8>, u64) {
    (e.0@, e.1@, e.2)
}

/// Relies on hashbrown::HashMap::new: a map that holds nothing.
#[verifier::external_body]
pub(crate) fn table_new() -> (r: UserTable)
    ensures
        table_contents(r).dom().len() == 0,
        table_contents(r).dom().finite(),
{
    hashbrown::HashMap::new()
}

/// Relies on hashbrown::HashMap::contains_key: whether the name has an entry.
#[verifier::external_body]
pub(crate) fn table_contains(t: &UserTable, k: &String) -> (r: bool)
    ensures
        r == table_contents(*t).contains_key(k@),
{
    t.contains_key(k)
}

/// Relies on hashbrown::HashMap::get: a copy of the name's entry, if any.
#[verifier::external_body]
pub(crate) fn table_get(t: &UserTable, k: &String) -> (r: Option<UserEntry>)
    ensures
        r is Some <==> table_contents(*t).contains_key(k@),
        r is Some ==> table_contents(*t)[k@] == entry_view(r->Some_0),
{
    t.get(k).cloned()
}

/// Relies on hashbrown::HashMap::insert: the name's entry becomes `v`, the
/// others stay.
#[verifier::external_body]
pub(crate) fn table_insert(t: &mut UserTable, k: String, v: UserEntry)
    ensures
        table_contents(*final(t)) == table_contents(*old(t)).insert(k@, entry_view(v)),
{
    t.insert(k, v);
}

/// Relies on hashbrown::HashMap::remove: the name loses its entry, the
/// others stay.
#[verifier::external_body]
pub(crate) fn table_remove(t: &mut UserTable, k: &String)
    ensures
        table_contents(*final(t)) == table_contents(*old(t)).remove(k@),
{
    t.remove(k);
}

/// Relies on hashbrown::HashMap::iter: it visits every entry once, in an
/// order of its own; each is copied out.
#[verifier::external_body]
pub(crate) fn table_entries(t: &UserTable) -> (r: Vec<(String, UserEntry)>)
    ensures
        forall|i: int| 0 <= i < r@.len() ==> table_contents(*t).contains_key(#[trigger] r@[i].0@)
            && table_contents(*t)[r@[i].0@] == entry_view(r@[i].1),
        forall|i: int, j: int| 0 <= i < r@.len() && 0 <= j < r@.len() && i != j ==> r@[i].0@ != r@[j].0@,
        forall|k: Seq<char>| table_contents(*t).contains_key(k) ==> exists|i: int| 0 <= i < r@.len() && #[trigger] r@[i].0@ == k,
{
    t.iter().map(|(k, v)| (k.clone(), v.clone())).collect()
}

} // verus!
