//! The concurrent maps of `dashmap` that hold the server's rooms, open
//! connections and UDP routes, behind the few operations the logic uses.
//! What each map holds is named, and each operation states what it does to
//! that, as the crate's source shows it.
use crate::state::{Room, SpecRoom};
use dashmap::DashMap;
use vstd::prelude::*;

verus! {

/// `dashmap::DashMap`, whose contents Verus does not see.
#[verifier::external_type_specification]
#[verifier::external_body]
#[verifier::reject_recursive_types(K)]
#[verifier::reject_recursive_types(V)]
#[verifier::reject_recursive_types(S)]
pub struct ExDashMap<K, V, S>(DashMap<K, V, S>);

/// The rooms a map holds, by the text of their keys.
pub uninterp spec fn room_entries(m: DashMap<String, Room>) -> Map<Seq<char>, SpecRoom>;

/// The ids a map of open connections holds as keys.
pub uninterp spec fn connection_ids(m: DashMap<i32, ()>) -> Set<i32>;

/// The connection id a map of UDP routes holds for the text of each address.
pub uninterp spec fn route_entries(m: DashMap<String, i32>) -> Map<Seq<char>, i32>;

/// `DashMap::new`: a map of rooms holding nothing.
#[verifier::external_body]
pub(crate) fn new_room_map() -> (m: DashMap<String, Room>)
    ensures
        room_entries(m).dom() == Set::<Seq<char>>::empty(),
{
    DashMap::new()
}

/// `DashMap::view`: whether the map holds a room under the id, and then
/// a copy of it, made by `Room::duplicate` in the closure the map calls.
#[verifier::external_body]
pub(crate) fn room_map_get(m: &DashMap<String, Room>, id: &String) -> (r: Option<Room>)
    ensures
        match r {
            Some(room) => room_entries(*m).contains_key(id@) && room@ == room_entries(*m)[id@],
            None => !room_entries(*m).contains_key(id@),
        },
{
    m.view(id, |_, room| room.duplicate())
}

/// `DashMap::insert`: the map holds the room under the id, in place of any
/// room that was there, and holds the others as before.
#[verifier::external_body]
pub(crate) fn room_map_insert(m: &mut DashMap<String, Room>, id: String, room: Room)
    ensures
        room_entries(*final(m)) == room_entries(*old(m)).insert(id@, room@),
{
    m.insert(id, room);
}

/// `DashMap::remove`: the map no longer holds the id, and holds the others
/// as before; the room that was under the id, if any, comes back.
#[verifier::external_body]
pub(crate) fn room_map_remove(m: &mut DashMap<String, Room>, id: &String) -> (r: Option<Room>)
    ensures
        room_entries(*final(m)) == room_entries(*old(m)).remove(id@),
        match r {
            Some(room) => room_entries(*old(m)).contains_key(id@) && room@ == room_entries(
                *old(m),
            )[id@],
            None => !room_entries(*old(m)).contains_key(id@),
        },
{
    match m.remove(id) {
        Some((_, room)) => Some(room),
        None => None,
    }
}

/// `DashMap::iter`: the keys of the map, each once.  The order is the
/// map's, which the crate does not state.
#[verifier::external_body]
pub(crate) fn room_map_keys(m: &DashMap<String, Room>) -> (v: Vec<String>)
    ensures
        forall|k: int| 0 <= k < v@.len() ==> room_entries(*m).contains_key(#[trigger] v@[k]@),
        forall|id: Seq<char>|
            #[trigger] room_entries(*m).contains_key(id) ==> exists|k: int|
                0 <= k < v@.len() && #[trigger] v@[k]@ == id,
        forall|a: int, b: int|
            0 <= a < b < v@.len() ==> #[trigger] v@[a]@ != #[trigger] v@[b]@,
{
    let mut keys = Vec::new();
    for entry in m.iter() {
        keys.push(entry.key().clone());
    }
    keys
}

/// `DashMap::new`: a map of connections holding nothing.
#[verifier::external_body]
pub(crate) fn new_connection_map() -> (m: DashMap<i32, ()>)
    ensures
        connection_ids(m) == Set::<i32>::empty(),
{
    DashMap::new()
}

/// `DashMap::insert`: the map holds the id, and the others as before.
#[verifier::external_body]
pub(crate) fn connection_map_insert(m: &mut DashMap<i32, ()>, id: i32)
    ensures
        connection_ids(*final(m)) == connection_ids(*old(m)).insert(id),
{
    m.insert(id, ());
}

/// `DashMap::remove`: the map no longer holds the id, and holds the others
/// as before.
#[verifier::external_body]
pub(crate) fn connection_map_remove(m: &mut DashMap<i32, ()>, id: i32)
    ensures
        connection_ids(*final(m)) == connection_ids(*old(m)).remove(id),
{
    m.remove(&id);
}

/// `DashMap::contains_key`: whether the map holds the id.
#[verifier::external_body]
pub(crate) fn connection_map_contains(m: &DashMap<i32, ()>, id: i32) -> (b: bool)
    ensures
        b == connection_ids(*m).contains(id),
{
    m.contains_key(&id)
}

/// `DashMap::new`: a map of routes holding nothing.
#[verifier::external_body]
pub(crate) fn new_route_map() -> (m: DashMap<String, i32>)
    ensures
        route_entries(m).dom() == Set::<Seq<char>>::empty(),
{
    DashMap::new()
}

/// `DashMap::insert`: the map holds the connection id under the address,
/// in place of any id that was there, and the others as before.
#[verifier::external_body]
pub(crate) fn route_map_insert(m: &mut DashMap<String, i32>, addr: String, id: i32)
    ensures
        route_entries(*final(m)) == route_entries(*old(m)).insert(addr@, id),
{
    m.insert(addr, id);
}

/// `DashMap::remove`: the map no longer holds the address, and holds the
/// others as before.
#[verifier::external_body]
pub(crate) fn route_map_remove(m: &mut DashMap<String, i32>, addr: &String)
    ensures
        route_entries(*final(m)) == route_entries(*old(m)).remove(addr@),
{
    m.remove(addr);
}

/// `DashMap::get`: the connection id held under the address, if any.
#[verifier::external_body]
pub(crate) fn route_map_get(m: &DashMap<String, i32>, addr: &String) -> (r: Option<i32>)
    ensures
        r == if route_entries(*m).contains_key(addr@) {
            Some(route_entries(*m)[addr@])
        } else {
            None::<i32>
        },
{
    match m.get(addr) {
        Some(entry) => Some(*entry.value()),
        None => None,
    }
}

} // verus!
