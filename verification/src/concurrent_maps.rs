//! The `dashmap` tables the server keeps, and what their methods do.
//!
//! Every function here takes the table by exclusive reference where it changes
//! it, so that no other writer interferes with the step it describes.

use dashmap::DashMap;
use vstd::prelude::*;

use crate::connection::{ClientConnection, ConnectionView, IpKey};
use crate::protocol::{AppId, PlayerId, RoomId};

verus! {

/// `dashmap::DashMap`, opaque to the verifier.
#[verifier::external_type_specification]
#[verifier::external_body]
#[verifier::reject_recursive_types(K)]
#[verifier::reject_recursive_types(V)]
#[verifier::reject_recursive_types(S)]
pub struct ExDashMap<K, V, S>(dashmap::DashMap<K, V, S>);

/// The connections a table holds, by player.
pub uninterp spec fn connections(table: DashMap<u128, ClientConnection>) -> Map<
    PlayerId,
    ConnectionView,
>;

/// `DashMap::new`: the table is empty.
#[verifier::external_body]
pub(crate) fn new_connections() -> (table: DashMap<u128, ClientConnection>)
    ensures
        connections(table) =~= Map::empty(),
{
    DashMap::new()
}

/// `DashMap::insert`: the entry is set, and what it held before is handed out.
#[verifier::external_body]
pub(crate) fn insert_connection(
    table: &mut DashMap<u128, ClientConnection>,
    player: PlayerId,
    connection: ClientConnection,
) -> (displaced: Option<ClientConnection>)
    ensures
        connections(*final(table)) == connections(*old(table)).insert(player, connection@),
        displaced is Some <==> connections(*old(table)).contains_key(player),
        displaced is Some ==> displaced->0@ == connections(*old(table))[player],
{
    table.insert(player, connection)
}

/// `DashMap::remove`: the entry is gone, and what it held is handed out.
#[verifier::external_body]
pub(crate) fn remove_connection(table: &mut DashMap<u128, ClientConnection>, player: PlayerId) -> (
    removed: Option<ClientConnection>)
    ensures
        connections(*final(table)) == connections(*old(table)).remove(player),
        removed is Some <==> connections(*old(table)).contains_key(player),
        removed is Some ==> removed->0@ == connections(*old(table))[player],
{
    table.remove(&player).map(|entry| entry.1)
}

/// `DashMap::get`: a copy of what the entry holds, if there is one.
#[verifier::external_body]
pub(crate) fn get_connection(table: &DashMap<u128, ClientConnection>, player: PlayerId) -> (found:
    Option<ClientConnection>)
    ensures
        found is Some <==> connections(*table).contains_key(player),
        found is Some ==> found->0@ == connections(*table)[player],
{
    table.get(&player).map(|entry| entry.value().clone())
}

/// `DashMap::contains_key`.
#[verifier::external_body]
pub(crate) fn has_connection(table: &DashMap<u128, ClientConnection>, player: PlayerId) -> (found:
    bool)
    ensures
        found == connections(*table).contains_key(player),
{
    table.contains_key(&player)
}

/// `DashMap::iter`, keys only: every key once, in no particular order.
#[verifier::external_body]
pub(crate) fn connection_ids(table: &DashMap<u128, ClientConnection>) -> (players: Vec<PlayerId>)
    ensures
        players@.no_duplicates(),
        players@.to_set() == connections(*table).dom(),
{
    table.iter().map(|entry| *entry.key()).collect()
}

/// The connection slots taken, by source address.
pub uninterp spec fn ip_slots(table: DashMap<(u8, u128), usize>) -> Map<IpKey, usize>;

/// `DashMap::new`: the table is empty.
#[verifier::external_body]
pub(crate) fn new_ip_slots() -> (table: DashMap<(u8, u128), usize>)
    ensures
        ip_slots(table) =~= Map::empty(),
{
    DashMap::new()
}

/// `DashMap::insert`: the entry is set.
#[verifier::external_body]
pub(crate) fn set_ip_slots(table: &mut DashMap<(u8, u128), usize>, ip: IpKey, count: usize)
    ensures
        ip_slots(*final(table)) == ip_slots(*old(table)).insert(ip, count),
{
    table.insert(ip, count);
}

/// `DashMap::remove`: the entry is gone.
#[verifier::external_body]
pub(crate) fn clear_ip_slots(table: &mut DashMap<(u8, u128), usize>, ip: IpKey)
    ensures
        ip_slots(*final(table)) == ip_slots(*old(table)).remove(ip),
{
    table.remove(&ip);
}

/// `DashMap::get`: what the entry holds, if there is one.
#[verifier::external_body]
pub(crate) fn get_ip_slots(table: &DashMap<(u8, u128), usize>, ip: IpKey) -> (count: Option<usize>)
    ensures
        count == (if ip_slots(*table).contains_key(ip) {
            Some(ip_slots(*table)[ip])
        } else {
            None
        }),
{
    table.get(&ip).map(|entry| *entry.value())
}

/// The rooms a table names an owning application for.
pub uninterp spec fn room_owners(table: DashMap<u128, u128>) -> Map<RoomId, AppId>;

/// `DashMap::new`: the table is empty.
#[verifier::external_body]
pub(crate) fn new_room_owners() -> (table: DashMap<u128, u128>)
    ensures
        room_owners(table) =~= Map::empty(),
{
    DashMap::new()
}

/// `DashMap::insert`: the entry is set.
#[verifier::external_body]
pub(crate) fn set_room_owner(table: &mut DashMap<u128, u128>, room: RoomId, app: AppId)
    ensures
        room_owners(*final(table)) == room_owners(*old(table)).insert(room, app),
{
    table.insert(room, app);
}

/// `DashMap::get`: what the entry holds, if there is one.
#[verifier::external_body]
pub(crate) fn get_room_owner(table: &DashMap<u128, u128>, room: RoomId) -> (owner: Option<AppId>)
    ensures
        owner == (if room_owners(*table).contains_key(room) {
            Some(room_owners(*table)[room])
        } else {
            None
        }),
{
    table.get(&room).map(|entry| *entry.value())
}

/// `DashMap::remove`: the entry is gone, and whether there was one is told.
#[verifier::external_body]
pub(crate) fn remove_room_owner(table: &mut DashMap<u128, u128>, room: RoomId) -> (removed: bool)
    ensures
        room_owners(*final(table)) == room_owners(*old(table)).remove(room),
        removed == room_owners(*old(table)).contains_key(room),
{
    table.remove(&room).is_some()
}

/// `DashMap::iter`, keys only: every key once, in no particular order.
#[verifier::external_body]
pub(crate) fn owned_rooms(table: &DashMap<u128, u128>) -> (rooms: Vec<RoomId>)
    ensures
        rooms@.no_duplicates(),
        rooms@.to_set() == room_owners(*table).dom(),
{
    table.iter().map(|entry| *entry.key()).collect()
}

/// The player removals a table keeps for retry, each with the application claim
/// to roll back with it.
pub uninterp spec fn pending_detaches(table: DashMap<(u128, u128), Option<u128>>) -> Map<
    (RoomId, PlayerId),
    Option<AppId>,
>;

/// `DashMap::new`: the table is empty.
#[verifier::external_body]
pub(crate) fn new_pending_detaches() -> (table: DashMap<(u128, u128), Option<u128>>)
    ensures
        pending_detaches(table) =~= Map::empty(),
{
    DashMap::new()
}

/// `DashMap::insert`: the entry is set.
#[verifier::external_body]
pub(crate) fn set_pending_detach(
    table: &mut DashMap<(u128, u128), Option<u128>>,
    key: (RoomId, PlayerId),
    claim: Option<AppId>,
)
    ensures
        pending_detaches(*final(table)) == pending_detaches(*old(table)).insert(key, claim),
{
    table.insert(key, claim);
}

/// `DashMap::get`: what the entry holds, if there is one.
#[verifier::external_body]
pub(crate) fn get_pending_detach(
    table: &DashMap<(u128, u128), Option<u128>>,
    key: (RoomId, PlayerId),
) -> (claim: Option<Option<AppId>>)
    ensures
        claim == (if pending_detaches(*table).contains_key(key) {
            Some(pending_detaches(*table)[key])
        } else {
            None
        }),
{
    table.get(&key).map(|entry| *entry.value())
}

/// `DashMap::remove`: the entry is gone, and whether there was one is told.
#[verifier::external_body]
pub(crate) fn remove_pending_detach(
    table: &mut DashMap<(u128, u128), Option<u128>>,
    key: (RoomId, PlayerId),
) -> (removed: bool)
    ensures
        pending_detaches(*final(table)) == pending_detaches(*old(table)).remove(key),
        removed == pending_detaches(*old(table)).contains_key(key),
{
    table.remove(&key).is_some()
}

/// `DashMap::iter`, keys only: every key once, in no particular order.
#[verifier::external_body]
pub(crate) fn pending_detach_keys(table: &DashMap<(u128, u128), Option<u128>>) -> (keys: Vec<
    (RoomId, PlayerId),
>)
    ensures
        keys@.no_duplicates(),
        keys@.to_set() == pending_detaches(*table).dom(),
{
    table.iter().map(|entry| *entry.key()).collect()
}

} // verus!
