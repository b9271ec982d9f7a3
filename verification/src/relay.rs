//! The relay's store: one room per sync token, and in each room the latest entry that
//! every machine pushed under that token.
//!
//! Rooms and machines are kept in vectors with at most one element per key, not in
//! `HashMap<String, _>`: vstd gives a string-keyed `HashMap` no specification that a proof
//! could use. The lemmas of `keyed` read each vector as the map it stands for, and the
//! relay's view is that map.

use vstd::prelude::*;
use vstd::utf8::encode_utf8;
use crate::keyed::{
    has_key, index_of_key, keyed_map, lemma_keyed_at, lemma_keyed_empty, lemma_keyed_len,
    lemma_keyed_push, lemma_keyed_remove, lemma_keyed_update, unique_keys,
};
use crate::clock::{
    cutoff_text, nanos_in_range, now_rfc3339, stale_cutoff_now, time_text, ClockReading,
};
use crate::text::{
    bytes_lt, parse_u16, parse_u16_spec, str_greater, strip_prefix_of, trim_whitespace, trim_ws,
};
use crate::wire::{
    entry_for_push, opt_text, MachineEntry, MachineEntryView, MachinePush, MachinePushView,
    SyncPullResponse,
};

verus! {

/// The most machines one token may have on the relay.
pub const MAX_MACHINES_PER_TOKEN: usize = 120;

/// A room's machines, by machine id.
pub type RoomMap = Map<Seq<char>, MachineEntryView>;

/// The relay's rooms, by token.
pub type RelayMap = Map<Seq<char>, RoomMap>;

/// The key that a machine entry is stored under.
pub open spec fn machine_key() -> spec_fn(MachineEntry) -> Seq<char> {
    |e: MachineEntry| e.machine_id@
}

/// A list of machine entries read as a map from machine id to entry.
pub open spec fn machine_map(s: Seq<MachineEntry>) -> RoomMap {
    keyed_map(s, machine_key()).map_values(|e: MachineEntry| e@)
}

/// The room of `token` in `m`, or the empty room where there is none.
pub open spec fn room_of(m: RelayMap, token: Seq<char>) -> RoomMap {
    if m.contains_key(token) {
        m[token]
    } else {
        Map::empty()
    }
}

/// A push for machine `id` under `token` is taken: the id is not empty, and the machine is
/// already in the room or the room has room for one more.
pub open spec fn push_accepted(m: RelayMap, token: Seq<char>, id: Seq<char>) -> bool {
    &&& id.len() > 0
    &&& (room_of(m, token).contains_key(id) || room_of(m, token).len()
        < MAX_MACHINES_PER_TOKEN)
}

/// The relay after the push `push` under `token` was recorded, seen at `last_seen_at`.
pub open spec fn after_push(
    m: RelayMap,
    token: Seq<char>,
    push: MachinePushView,
    last_seen_at: Seq<char>,
) -> RelayMap {
    m.insert(token, room_of(m, token).insert(push.machine_id, entry_for_push(push, last_seen_at)))
}

/// The relay after machine `id` was deleted from the room of `token`; a room left empty
/// goes too.
pub open spec fn after_delete(m: RelayMap, token: Seq<char>, id: Seq<char>) -> RelayMap {
    if m.contains_key(token) {
        if m[token].remove(id) == RoomMap::empty() {
            m.remove(token)
        } else {
            m.insert(token, m[token].remove(id))
        }
    } else {
        m
    }
}

/// An entry is fresh against `cutoff` when its `last_seen_at` sorts after the cutoff.
pub open spec fn is_fresh(e: MachineEntryView, cutoff: Seq<char>) -> bool {
    bytes_lt(encode_utf8(cutoff), encode_utf8(e.last_seen_at))
}

/// The fresh entries of a room.
pub open spec fn fresh_part(room: RoomMap, cutoff: Seq<char>) -> RoomMap {
    Map::new(|id: Seq<char>| room.contains_key(id) && is_fresh(room[id], cutoff), |id: Seq<char>| room[id])
}

/// A room holds a fresh entry.
pub open spec fn has_fresh(room: RoomMap, cutoff: Seq<char>) -> bool {
    exists|id: Seq<char>| room.contains_key(id) && is_fresh(#[trigger] room[id], cutoff)
}

/// The relay after an eviction sweep against `cutoff`: each room keeps its fresh entries,
/// and rooms with none go.
pub open spec fn after_eviction(m: RelayMap, cutoff: Seq<char>) -> RelayMap {
    Map::new(
        |t: Seq<char>| m.contains_key(t) && has_fresh(m[t], cutoff),
        |t: Seq<char>| fresh_part(m[t], cutoff),
    )
}

/// The relay after an eviction sweep in which the room of each token `t` was compared
/// against `cutoffs[t]`.
pub open spec fn after_eviction_by(m: RelayMap, cutoffs: Map<Seq<char>, Seq<char>>) -> RelayMap {
    Map::new(
        |t: Seq<char>| m.contains_key(t) && has_fresh(m[t], cutoffs[t]),
        |t: Seq<char>| fresh_part(m[t], cutoffs[t]),
    )
}

/// A cutoff that a sweep read off the clock: the text of one day before a clock reading.
pub open spec fn is_clock_cutoff(c: Seq<char>) -> bool {
    exists|now: ClockReading| nanos_in_range(now.unix_nanos()) && c == cutoff_text(now.unix_nanos())
}

/// Why the relay refused a push.
pub enum PushRejection {
    /// The push named no machine.
    MissingMachineId,
    /// The token already has the most machines it may have, and this is a new one.
    TooManyMachines,
}

struct Room {
    token: String,
    machines: Vec<MachineEntry>,
}

spec fn room_key() -> spec_fn(Room) -> Seq<char> {
    |r: Room| r.token@
}

spec fn room_ok(r: Room) -> bool {
    &&& unique_keys(r.machines@, machine_key())
    &&& 0 < r.machines@.len() <= MAX_MACHINES_PER_TOKEN
}

spec fn relay_map(rooms: Seq<Room>) -> RelayMap {
    keyed_map(rooms, room_key()).map_values(|r: Room| machine_map(r.machines@))
}

/// The relay's state: every room that holds at least one machine.
pub struct RelayState {
    rooms: Vec<Room>,
}

impl View for RelayState {
    type V = RelayMap;

    closed spec fn view(&self) -> RelayMap {
        relay_map(self.rooms@)
    }
}

proof fn lemma_machine_map_at(s: Seq<MachineEntry>, i: int)
    requires
        unique_keys(s, machine_key()),
        0 <= i < s.len(),
    ensures
        machine_map(s).contains_key(s[i].machine_id@),
        machine_map(s)[s[i].machine_id@] == s[i]@,
{
    lemma_keyed_at(s, machine_key(), i);
}

proof fn lemma_machine_map_len(s: Seq<MachineEntry>)
    requires
        unique_keys(s, machine_key()),
    ensures
        machine_map(s).dom().finite(),
        machine_map(s).len() == s.len(),
{
    lemma_keyed_len(s, machine_key());
    assert(machine_map(s).dom() =~= keyed_map(s, machine_key()).dom());
}

proof fn lemma_machine_map_update(s: Seq<MachineEntry>, j: int, e: MachineEntry)
    requires
        unique_keys(s, machine_key()),
        0 <= j < s.len(),
        e.machine_id@ == s[j].machine_id@,
    ensures
        unique_keys(s.update(j, e), machine_key()),
        machine_map(s.update(j, e)) == machine_map(s).insert(e.machine_id@, e@),
{
    lemma_keyed_update(s, machine_key(), j, e);
    assert(machine_map(s.update(j, e)) =~= machine_map(s).insert(e.machine_id@, e@));
}

proof fn lemma_machine_map_push(s: Seq<MachineEntry>, e: MachineEntry)
    requires
        unique_keys(s, machine_key()),
        !machine_map(s).contains_key(e.machine_id@),
    ensures
        unique_keys(s.push(e), machine_key()),
        machine_map(s.push(e)) == machine_map(s).insert(e.machine_id@, e@),
{
    lemma_keyed_push(s, machine_key(), e);
    assert(machine_map(s.push(e)) =~= machine_map(s).insert(e.machine_id@, e@));
}

proof fn lemma_machine_map_remove(s: Seq<MachineEntry>, j: int)
    requires
        unique_keys(s, machine_key()),
        0 <= j < s.len(),
    ensures
        unique_keys(s.remove(j), machine_key()),
        machine_map(s.remove(j)) == machine_map(s).remove(s[j].machine_id@),
{
    lemma_keyed_remove(s, machine_key(), j);
    assert(machine_map(s.remove(j)) =~= machine_map(s).remove(s[j].machine_id@));
}

proof fn lemma_relay_map_at(rooms: Seq<Room>, i: int)
    requires
        unique_keys(rooms, room_key()),
        0 <= i < rooms.len(),
    ensures
        relay_map(rooms).contains_key(rooms[i].token@),
        relay_map(rooms)[rooms[i].token@] == machine_map(rooms[i].machines@),
{
    lemma_keyed_at(rooms, room_key(), i);
}

proof fn lemma_relay_map_update(rooms: Seq<Room>, i: int, r: Room)
    requires
        unique_keys(rooms, room_key()),
        0 <= i < rooms.len(),
        r.token@ == rooms[i].token@,
    ensures
        unique_keys(rooms.update(i, r), room_key()),
        relay_map(rooms.update(i, r)) == relay_map(rooms).insert(
            r.token@,
            machine_map(r.machines@),
        ),
{
    lemma_keyed_update(rooms, room_key(), i, r);
    assert(relay_map(rooms.update(i, r)) =~= relay_map(rooms).insert(
        r.token@,
        machine_map(r.machines@),
    ));
}

proof fn lemma_relay_map_push(rooms: Seq<Room>, r: Room)
    requires
        unique_keys(rooms, room_key()),
        !relay_map(rooms).contains_key(r.token@),
    ensures
        unique_keys(rooms.push(r), room_key()),
        relay_map(rooms.push(r)) == relay_map(rooms).insert(r.token@, machine_map(r.machines@)),
{
    lemma_keyed_push(rooms, room_key(), r);
    assert(relay_map(rooms.push(r)) =~= relay_map(rooms).insert(
        r.token@,
        machine_map(r.machines@),
    ));
}

proof fn lemma_relay_map_remove(rooms: Seq<Room>, i: int)
    requires
        unique_keys(rooms, room_key()),
        0 <= i < rooms.len(),
    ensures
        unique_keys(rooms.remove(i), room_key()),
        relay_map(rooms.remove(i)) == relay_map(rooms).remove(rooms[i].token@),
{
    lemma_keyed_remove(rooms, room_key(), i);
    assert(relay_map(rooms.remove(i)) =~= relay_map(rooms).remove(rooms[i].token@));
}

/// The position of the machine `id` in `machines`, if it is there.
fn find_machine(machines: &Vec<MachineEntry>, id: &String) -> (r: Option<usize>)
    ensures
        r matches Some(j) ==> j < machines@.len() && machines@[j as int].machine_id@ == id@,
        r is None ==> !has_key(machines@, machine_key(), id@),
{
    let mut j: usize = 0;
    while j < machines.len()
        invariant
            j <= machines@.len(),
            forall|k: int| 0 <= k < j ==> #[trigger] machines@[k].machine_id@ != id@,
        decreases machines@.len() - j,
    {
        if machines[j].machine_id == *id {
            return Some(j);
        }
        j = j + 1;
    }
    proof {
        if has_key(machines@, machine_key(), id@) {
            let k = index_of_key(machines@, machine_key(), id@);
            assert(machines@[k].machine_id@ == id@);
        }
    }
    None
}


/// Every room holds between one and `MAX_MACHINES_PER_TOKEN` machines, each once.
spec fn rooms_ok(rooms: Seq<Room>) -> bool {
    forall|i: int| 0 <= i < rooms.len() ==> room_ok(#[trigger] rooms[i])
}

/// No token has two rooms, and every room is well formed.
spec fn rooms_wf(rooms: Seq<Room>) -> bool {
    unique_keys(rooms, room_key()) && rooms_ok(rooms)
}

proof fn lemma_rooms_ok_push(rooms: Seq<Room>, r: Room)
    requires
        rooms_ok(rooms),
        room_ok(r),
    ensures
        rooms_ok(rooms.push(r)),
{
    assert forall|i: int| 0 <= i < rooms.push(r).len() implies room_ok(#[trigger] rooms.push(r)[i]) by {
        if i < rooms.len() {
            assert(rooms.push(r)[i] == rooms[i]);
        }
    }
}

proof fn lemma_rooms_ok_update(rooms: Seq<Room>, j: int, r: Room)
    requires
        rooms_ok(rooms),
        0 <= j < rooms.len(),
        room_ok(r),
    ensures
        rooms_ok(rooms.update(j, r)),
{
    assert forall|i: int| 0 <= i < rooms.update(j, r).len() implies room_ok(
        #[trigger] rooms.update(j, r)[i],
    ) by {
        if i != j {
            assert(rooms.update(j, r)[i] == rooms[i]);
        }
    }
}

proof fn lemma_rooms_ok_remove(rooms: Seq<Room>, j: int)
    requires
        rooms_ok(rooms),
        0 <= j < rooms.len(),
    ensures
        rooms_ok(rooms.remove(j)),
{
    assert forall|i: int| 0 <= i < rooms.remove(j).len() implies room_ok(
        #[trigger] rooms.remove(j)[i],
    ) by {
        if i < j {
            assert(rooms.remove(j)[i] == rooms[i]);
        } else {
            assert(rooms.remove(j)[i] == rooms[i + 1]);
        }
    }
}


/// The position of the room of `token`, if there is one.
fn find_room(rooms: &Vec<Room>, token: &String) -> (r: Option<usize>)
    ensures
        r matches Some(i) ==> i < rooms@.len() && rooms@[i as int].token@ == token@,
        r is None ==> !has_key(rooms@, room_key(), token@),
{
    let mut i: usize = 0;
    while i < rooms.len()
        invariant
            i <= rooms@.len(),
            forall|k: int| 0 <= k < i ==> #[trigger] rooms@[k].token@ != token@,
        decreases rooms@.len() - i,
    {
        if rooms[i].token == *token {
            return Some(i);
        }
        i = i + 1;
    }
    proof {
        if has_key(rooms@, room_key(), token@) {
            let k = index_of_key(rooms@, room_key(), token@);
            assert(rooms@[k].token@ == token@);
        }
    }
    None
}


/// The work behind `RelayState::push_machine`, on the room list taken out of the state.
fn push_into(rooms: &mut Vec<Room>, token: String, push: MachinePush, last_seen_at: String) -> (r:
    Result<(), PushRejection>)
    requires
        rooms_wf(old(rooms)@),
    ensures
        rooms_wf(final(rooms)@),
        r is Ok <==> push_accepted(relay_map(old(rooms)@), token@, push@.machine_id),
        r is Ok ==> relay_map(final(rooms)@) == after_push(relay_map(old(rooms)@), token@, push@, last_seen_at@),
        r is Err ==> relay_map(final(rooms)@) == relay_map(old(rooms)@),
        r matches Err(PushRejection::MissingMachineId) ==> push@.machine_id.len() == 0,
        r matches Err(PushRejection::TooManyMachines) ==> push@.machine_id.len() > 0,
{
    if push.machine_id.as_str().is_empty() {
        return Err(PushRejection::MissingMachineId);
    }
    let ghost pv = push@;
    let entry = MachineEntry {
        machine_id: push.machine_id,
        machine_name: push.machine_name,
        snapshots: push.snapshots,
        pushed_at: push.pushed_at,
        last_seen_at,
    };
    assert(entry@ == entry_for_push(pv, last_seen_at@));
    let ghost old_rooms = rooms@;
    match find_room(rooms, &token) {
        None => {
            let mut machines: Vec<MachineEntry> = Vec::new();
            proof {
                lemma_keyed_empty(machines@, machine_key());
                assert(machine_map(machines@) =~= RoomMap::empty());
            }
            let ghost empty_machines = machines@;
            machines.push(entry);
            proof {
                lemma_machine_map_push(empty_machines, entry);
                assert(empty_machines.push(entry) == machines@);
            }
            let room = Room { token, machines };
            proof {
                assert(!relay_map(old_rooms).contains_key(room.token@));
                lemma_relay_map_push(old_rooms, room);
            }
            rooms.push(room);
            proof {
                assert(room_of(relay_map(old_rooms), room.token@) == RoomMap::empty());
                assert(RoomMap::empty().dom() =~= Set::empty());
                lemma_rooms_ok_push(old_rooms, room);
            }
            Ok(())
        },
        Some(i) => {
            let mut room = rooms.remove(i);
            proof {
                lemma_relay_map_at(old_rooms, i as int);
                lemma_machine_map_len(room.machines@);
            }
            let ghost old_machines = room.machines@;
            match find_machine(&room.machines, &entry.machine_id) {
                Some(j) => {
                    proof {
                        lemma_machine_map_at(old_machines, j as int);
                        lemma_machine_map_update(old_machines, j as int, entry);
                    }
                    room.machines.set(j, entry);
                },
                None => {
                    if room.machines.len() >= MAX_MACHINES_PER_TOKEN {
                        rooms.insert(i, room);
                        proof {
                            assert(rooms@ =~= old_rooms);
                        }
                        return Err(PushRejection::TooManyMachines);
                    }
                    proof {
                        assert(!machine_map(old_machines).contains_key(entry.machine_id@));
                        lemma_machine_map_push(old_machines, entry);
                    }
                    room.machines.push(entry);
                },
            }
            proof {
                lemma_relay_map_update(old_rooms, i as int, room);
            }
            rooms.insert(i, room);
            proof {
                assert(rooms@ =~= old_rooms.update(i as int, room));
                lemma_rooms_ok_update(old_rooms, i as int, room);
            }
            Ok(())
        },
    }
}


/// Deletes machine `machine_id` from `token`'s room, and the room if that empties it.
fn delete_from(rooms: &mut Vec<Room>, token: &String, machine_id: &String)
    requires
        rooms_wf(old(rooms)@),
    ensures
        rooms_wf(final(rooms)@),
        relay_map(final(rooms)@) == after_delete(relay_map(old(rooms)@), token@, machine_id@),
{
    let ghost old_rooms = rooms@;
    match find_room(rooms, token) {
        None => {
            assert(!relay_map(rooms@).contains_key(token@));
        },
        Some(i) => {
            proof {
                assert(room_ok(old_rooms[i as int]));
                lemma_relay_map_at(old_rooms, i as int);
                lemma_machine_map_at(old_rooms[i as int].machines@, 0);
            }
            match find_machine(&rooms[i].machines, machine_id) {
                None => {
                    proof {
                        let rm = machine_map(old_rooms[i as int].machines@);
                        assert(rm.remove(machine_id@) =~= rm);
                        assert(rm.contains_key(old_rooms[i as int].machines@[0].machine_id@));
                        assert(rm != RoomMap::empty());
                        assert(relay_map(rooms@).insert(token@, rm) =~= relay_map(rooms@));
                    }
                },
                Some(j) => {
                    let mut room = rooms.remove(i);
                    let ghost before = room.machines@;
                    proof {
                        lemma_machine_map_remove(before, j as int);
                        lemma_relay_map_remove(old_rooms, i as int);
                    }
                    room.machines.remove(j);
                    if room.machines.len() == 0 {
                        proof {
                            lemma_machine_map_empty(room.machines@);
                            lemma_rooms_ok_remove(old_rooms, i as int);
                        }
                    } else {
                        proof {
                            lemma_machine_map_at(room.machines@, 0);
                            lemma_relay_map_update(old_rooms, i as int, room);
                        }
                        rooms.insert(i, room);
                        proof {
                            assert(rooms@ =~= old_rooms.update(i as int, room));
                            lemma_rooms_ok_update(old_rooms, i as int, room);
                        }
                    }
                },
            }
        },
    }
}

/// The work behind `RelayState::evict_rooms`, on the room list taken out of the state.
fn evict_from(rooms: &mut Vec<Room>, fixed: Option<&str>) -> (cuts: Ghost<Map<Seq<char>, Seq<char>>>)
    requires
        rooms_wf(old(rooms)@),
    ensures
        rooms_wf(final(rooms)@),
        relay_map(final(rooms)@) == after_eviction_by(relay_map(old(rooms)@), cuts@),
        forall|t: Seq<char>| #[trigger]
            relay_map(old(rooms)@).contains_key(t) ==> cuts@.contains_key(t) && cutoff_fits(
                fixed,
                cuts@[t],
            ),
{
    let ghost m0 = relay_map(rooms@);
    let ghost mut cuts: Map<Seq<char>, Seq<char>> = Map::empty();
    let mut i: usize = 0;
    proof {
        assert forall|k: int| 0 <= k < rooms@.len() implies {
            let r = #[trigger] rooms@[k];
            &&& m0.contains_key(r.token@)
            &&& machine_map(r.machines@) == m0[r.token@]
        } by {
            lemma_relay_map_at(rooms@, k);
        }
    }
    while i < rooms.len()
        invariant
            i <= rooms@.len(),
            unique_keys(rooms@, room_key()),
            rooms_ok(rooms@),
            forall|t: Seq<char>| #[trigger]
                relay_map(rooms@).contains_key(t) ==> m0.contains_key(t),
            forall|k: int|
                0 <= k < i ==> {
                    let r = #[trigger] rooms@[k];
                    &&& m0.contains_key(r.token@)
                    &&& cuts.contains_key(r.token@)
                    &&& machine_map(r.machines@) == fresh_part(m0[r.token@], cuts[r.token@])
                },
            forall|k: int|
                i <= k < rooms@.len() ==> {
                    let r = #[trigger] rooms@[k];
                    &&& m0.contains_key(r.token@)
                    &&& machine_map(r.machines@) == m0[r.token@]
                },
            forall|t: Seq<char>|
                m0.contains_key(t) && !(#[trigger] relay_map(rooms@).contains_key(t))
                    ==> cuts.contains_key(t) && !has_fresh(m0[t], cuts[t]),
            forall|t: Seq<char>| #[trigger]
                cuts.contains_key(t) ==> cutoff_fits(fixed, cuts[t]),
        decreases rooms@.len() - i,
    {
        let ghost rooms0 = rooms@;
        proof {
            lemma_relay_map_at(rooms0, i as int);
            assert(room_ok(rooms0[i as int]));
        }
        let mut room = rooms.remove(i);
        let cut: String = match fixed {
            Some(c) => c.to_owned(),
            None => stale_cutoff_now(),
        };
        retain_fresh(&mut room.machines, cut.as_str());
        proof {
            cuts = cuts.insert(room.token@, cut@);
        }
        if room.machines.len() > 0 {
            proof {
                lemma_relay_map_update(rooms0, i as int, room);
            }
            rooms.insert(i, room);
            proof {
                assert(rooms@ =~= rooms0.update(i as int, room));
                lemma_rooms_ok_update(rooms0, i as int, room);
                assert forall|k: int| 0 <= k < i + 1 implies {
                    let r = #[trigger] rooms@[k];
                    &&& m0.contains_key(r.token@)
                    &&& cuts.contains_key(r.token@)
                    &&& machine_map(r.machines@) == fresh_part(m0[r.token@], cuts[r.token@])
                } by {
                    if k != i {
                        assert(rooms@[k] == rooms0[k]);
                        lemma_keyed_at(rooms0, room_key(), k);
                        lemma_keyed_at(rooms0, room_key(), i as int);
                    }
                }
                assert forall|t: Seq<char>|
                    m0.contains_key(t) && !(#[trigger] relay_map(rooms@).contains_key(t))
                    implies cuts.contains_key(t) && !has_fresh(m0[t], cuts[t]) by {
                    assert(t != room.token@);
                }
            }
            i = i + 1;
        } else {
            proof {
                lemma_relay_map_remove(rooms0, i as int);
                lemma_machine_map_empty(room.machines@);
                let t0 = room.token@;
                assert(!has_fresh(m0[t0], cut@)) by {
                    if has_fresh(m0[t0], cut@) {
                        let id = choose|id: Seq<char>|
                            m0[t0].contains_key(id) && is_fresh(#[trigger] m0[t0][id], cut@);
                        assert(fresh_part(m0[t0], cut@).contains_key(id));
                    }
                }
                lemma_rooms_ok_remove(rooms0, i as int);
                assert forall|k: int| 0 <= k < i implies {
                    let r = #[trigger] rooms@[k];
                    &&& m0.contains_key(r.token@)
                    &&& cuts.contains_key(r.token@)
                    &&& machine_map(r.machines@) == fresh_part(m0[r.token@], cuts[r.token@])
                } by {
                    assert(rooms@[k] == rooms0[k]);
                    lemma_keyed_at(rooms0, room_key(), k);
                    lemma_keyed_at(rooms0, room_key(), i as int);
                }
                assert forall|k: int| i <= k < rooms@.len() implies {
                    let r = #[trigger] rooms@[k];
                    &&& m0.contains_key(r.token@)
                    &&& machine_map(r.machines@) == m0[r.token@]
                } by {
                    assert(rooms@[k] == rooms0[k + 1]);
                }
                assert forall|t: Seq<char>|
                    m0.contains_key(t) && !(#[trigger] relay_map(rooms@).contains_key(t))
                    implies cuts.contains_key(t) && !has_fresh(m0[t], cuts[t]) by {
                    if t != t0 {
                        assert(!relay_map(rooms0).contains_key(t));
                    }
                }
            }
        }
    }
    proof {
        let r = relay_map(rooms@);
        let e = after_eviction_by(m0, cuts);
        assert forall|t: Seq<char>| #[trigger] r.contains_key(t) implies e.contains_key(t)
            && r[t] == e[t] by {
            let k = index_of_key(rooms@, room_key(), t);
            lemma_relay_map_at(rooms@, k);
            let rm = rooms@[k];
            assert(room_ok(rm));
            lemma_machine_map_at(rm.machines@, 0);
            let id = rm.machines@[0].machine_id@;
            assert(fresh_part(m0[t], cuts[t]).contains_key(id));
            assert(is_fresh(m0[t][id], cuts[t]));
        }
        assert(r =~= e);
        assert forall|t: Seq<char>| #[trigger] m0.contains_key(t) implies cuts.contains_key(t)
            && cutoff_fits(fixed, cuts[t]) by {
            if r.contains_key(t) {
                let k = index_of_key(rooms@, room_key(), t);
                assert(rooms@[k].token@ == t);
            }
        }
    }
    Ghost(cuts)
}

impl RelayState {
    /// The relay is well formed: no token has two rooms, no machine two entries in a room,
    /// and every room holds between one and `MAX_MACHINES_PER_TOKEN` machines. Every value
    /// of the type keeps it.
    #[verifier::type_invariant]
    pub closed spec fn wf(&self) -> bool {
        rooms_wf(self.rooms@)
    }

    /// An empty relay.
    pub fn new() -> (s: Self)
        ensures
            s.wf(),
            s@ == RelayMap::empty(),
    {
        let s = RelayState { rooms: Vec::new() };
        proof {
            lemma_keyed_empty(s.rooms@, room_key());
            assert(s@ =~= RelayMap::empty());
        }
        s
    }

    /// Records `push` under `token`, seen at `last_seen_at`: the machine's entry is
    /// replaced, or added where the room has room for it.
    pub fn push_machine(&mut self, token: String, push: MachinePush, last_seen_at: String) -> (r:
        Result<(), PushRejection>)
        ensures
            final(self).wf(),
            r is Ok <==> push_accepted(old(self)@, token@, push@.machine_id),
            r is Ok ==> final(self)@ == after_push(old(self)@, token@, push@, last_seen_at@),
            r is Ok ==> room_of(final(self)@, token@).contains_key(push@.machine_id),
            r is Ok ==> room_of(final(self)@, token@)[push@.machine_id].machine_id == push@.machine_id,
            r is Ok ==> room_of(final(self)@, token@)[push@.machine_id].machine_name
                == push@.machine_name,
            r is Ok ==> room_of(final(self)@, token@)[push@.machine_id].snapshots == push@.snapshots,
            r is Ok ==> room_of(final(self)@, token@)[push@.machine_id].pushed_at == push@.pushed_at,
            r is Ok ==> room_of(final(self)@, token@)[push@.machine_id].last_seen_at == last_seen_at@,
            r is Err ==> final(self)@ == old(self)@,
            r matches Err(PushRejection::MissingMachineId) ==> push@.machine_id.len() == 0,
            r matches Err(PushRejection::TooManyMachines) ==> push@.machine_id.len() > 0,
    {
        proof {
            use_type_invariant(&*self);
        }
        let mut rooms: Vec<Room> = Vec::new();
        std::mem::swap(&mut rooms, &mut self.rooms);
        let r = push_into(&mut rooms, token, push, last_seen_at);
        self.rooms = rooms;
        r
    }
}

proof fn lemma_machine_map_same_views(a: Seq<MachineEntry>, b: Seq<MachineEntry>)
    requires
        unique_keys(a, machine_key()),
        a.len() == b.len(),
        forall|k: int| 0 <= k < a.len() ==> #[trigger] b[k]@ == a[k]@,
    ensures
        unique_keys(b, machine_key()),
        machine_map(b) == machine_map(a),
{
    assert forall|k: int| 0 <= k < a.len() implies #[trigger] machine_key()(b[k]) == machine_key()(
        a[k],
    ) by {
        assert(b[k]@.machine_id == a[k]@.machine_id);
    }
    assert(unique_keys(b, machine_key())) by {
        assert forall|x: int, y: int|
            0 <= x < b.len() && 0 <= y < b.len() && #[trigger] machine_key()(b[x])
                == #[trigger] machine_key()(b[y]) implies x == y by {
            assert(machine_key()(a[x]) == machine_key()(a[y]));
        }
    }
    assert forall|id: Seq<char>| #[trigger] machine_map(b).contains_key(id) <==> machine_map(
        a,
    ).contains_key(id) by {
        if has_key(a, machine_key(), id) {
            let k = index_of_key(a, machine_key(), id);
            assert(machine_key()(b[k]) == id);
        }
        if has_key(b, machine_key(), id) {
            let k = index_of_key(b, machine_key(), id);
            assert(machine_key()(a[k]) == id);
        }
    }
    assert forall|id: Seq<char>| #[trigger] machine_map(b).contains_key(id) implies machine_map(
        b,
    )[id] == machine_map(a)[id] by {
        let k = index_of_key(b, machine_key(), id);
        lemma_keyed_at(b, machine_key(), k);
        lemma_keyed_at(a, machine_key(), k);
    }
    assert(machine_map(b) =~= machine_map(a));
}

proof fn lemma_machine_map_empty(s: Seq<MachineEntry>)
    requires
        s.len() == 0,
    ensures
        machine_map(s) == RoomMap::empty(),
        unique_keys(s, machine_key()),
{
    lemma_keyed_empty(s, machine_key());
    assert(machine_map(s) =~= RoomMap::empty());
}

/// Copies of the entries in `v`, in order.
fn copy_entries(v: &Vec<MachineEntry>) -> (r: Vec<MachineEntry>)
    ensures
        r@.len() == v@.len(),
        forall|k: int| 0 <= k < v@.len() ==> #[trigger] r@[k]@ == v@[k]@,
{
    let mut out: Vec<MachineEntry> = Vec::new();
    let mut i: usize = 0;
    while i < v.len()
        invariant
            i <= v@.len(),
            out@.len() == i,
            forall|k: int| 0 <= k < i ==> #[trigger] out@[k]@ == v@[k]@,
        decreases v@.len() - i,
    {
        out.push(v[i].clone());
        i = i + 1;
    }
    out
}

/// Keeps the entries of `machines` whose `last_seen_at` sorts after `cutoff`.
fn retain_fresh(machines: &mut Vec<MachineEntry>, cutoff: &str)
    requires
        unique_keys(old(machines)@, machine_key()),
    ensures
        unique_keys(final(machines)@, machine_key()),
        final(machines)@.len() <= old(machines)@.len(),
        machine_map(final(machines)@) == fresh_part(machine_map(old(machines)@), cutoff@),
{
    let ghost m0 = machine_map(machines@);
    let ghost n0 = machines@.len();
    let mut i: usize = 0;
    while i < machines.len()
        invariant
            i <= machines@.len() <= n0,
            unique_keys(machines@, machine_key()),
            forall|id: Seq<char>| #[trigger]
                machine_map(machines@).contains_key(id) ==> m0.contains_key(id)
                    && machine_map(machines@)[id] == m0[id],
            forall|k: int| 0 <= k < i ==> is_fresh(#[trigger] machines@[k]@, cutoff@),
            forall|id: Seq<char>|
                m0.contains_key(id) && !(#[trigger] machine_map(machines@).contains_key(id))
                    ==> !is_fresh(m0[id], cutoff@),
        decreases machines@.len() - i,
    {
        if str_greater(machines[i].last_seen_at.as_str(), cutoff) {
            i = i + 1;
        } else {
            let ghost before = machines@;
            proof {
                lemma_machine_map_at(before, i as int);
                lemma_machine_map_remove(before, i as int);
            }
            machines.remove(i);
            proof {
                assert forall|k: int| 0 <= k < i implies is_fresh(
                    #[trigger] machines@[k]@,
                    cutoff@,
                ) by {
                    assert(machines@[k] == before[k]);
                }
            }
        }
    }
    proof {
        let m = machine_map(machines@);
        let f = fresh_part(m0, cutoff@);
        assert forall|id: Seq<char>| #[trigger] m.contains_key(id) implies f.contains_key(id)
            && m[id] == f[id] by {
            let k = index_of_key(machines@, machine_key(), id);
            lemma_machine_map_at(machines@, k);
        }
        assert(m =~= f);
    }
}

/// A recorded push is stored whole: the machine's entry under its token holds the pushed
/// id, name, every pushed snapshot and the push time, stamped with the time it was seen.
pub proof fn law_push_stores_entry(
    m: RelayMap,
    token: Seq<char>,
    push: MachinePushView,
    last_seen_at: Seq<char>,
)
    ensures
        room_of(after_push(m, token, push, last_seen_at), token).contains_key(push.machine_id),
        room_of(after_push(m, token, push, last_seen_at), token)[push.machine_id].machine_id
            == push.machine_id,
        room_of(after_push(m, token, push, last_seen_at), token)[push.machine_id].machine_name
            == push.machine_name,
        room_of(after_push(m, token, push, last_seen_at), token)[push.machine_id].snapshots
            == push.snapshots,
        room_of(after_push(m, token, push, last_seen_at), token)[push.machine_id].pushed_at
            == push.pushed_at,
        room_of(after_push(m, token, push, last_seen_at), token)[push.machine_id].last_seen_at
            == last_seen_at,
{
}

impl RelayState {
    /// Records `push` under `token`, seen now: what the relay does with a push whose
    /// token and body it has read.
    pub fn accept_push(&mut self, token: String, push: MachinePush) -> (r: Result<(), PushRejection>)
        ensures
            final(self).wf(),
            r is Ok <==> push_accepted(old(self)@, token@, push@.machine_id),
            r is Ok ==> exists|now: ClockReading|
                nanos_in_range(now.unix_nanos()) && final(self)@ == after_push(
                    old(self)@,
                    token@,
                    push@,
                    time_text(now.unix_nanos()),
                ),
            r is Ok ==> exists|t: i128|
                nanos_in_range(t) && final(self)@ == after_push(
                    old(self)@,
                    token@,
                    push@,
                    time_text(t),
                ),
            r is Ok ==> room_of(final(self)@, token@).contains_key(push@.machine_id),
            r is Ok ==> room_of(final(self)@, token@)[push@.machine_id].snapshots == push@.snapshots,
            r is Ok ==> exists|now: ClockReading|
                nanos_in_range(now.unix_nanos()) && room_of(final(self)@, token@)[push@.machine_id].last_seen_at
                    == time_text(now.unix_nanos()),
            r is Err ==> final(self)@ == old(self)@,
            r matches Err(PushRejection::MissingMachineId) ==> push@.machine_id.len() == 0,
            r matches Err(PushRejection::TooManyMachines) ==> push@.machine_id.len() > 0,
    {
        proof {
            use_type_invariant(&*self);
        }
        if push.machine_id.as_str().is_empty() {
            return Err(PushRejection::MissingMachineId);
        }
        let now = now_rfc3339();
        self.push_machine(token, push, now)
    }

    /// The machines of `token`'s room, each once.
    pub fn pull(&self, token: &String) -> (r: SyncPullResponse)
        ensures
            unique_keys(r.machines@, machine_key()),
            machine_map(r.machines@) == room_of(self@, token@),
            r.machines@.len() == room_of(self@, token@).len(),
    {
        proof {
            use_type_invariant(&*self);
        }
        match find_room(&self.rooms, token) {
            None => {
                let machines: Vec<MachineEntry> = Vec::new();
                proof {
                    lemma_machine_map_empty(machines@);
                    assert(!self@.contains_key(token@));
                    assert(RoomMap::empty().dom() =~= Set::empty());
                }
                SyncPullResponse { machines }
            },
            Some(i) => {
                let machines = copy_entries(&self.rooms[i].machines);
                proof {
                    assert(room_ok(self.rooms@[i as int]));
                    lemma_relay_map_at(self.rooms@, i as int);
                    lemma_machine_map_same_views(self.rooms@[i as int].machines@, machines@);
                    lemma_machine_map_len(machines@);
                }
                SyncPullResponse { machines }
            },
        }
    }

    /// Deletes machine `machine_id` from `token`'s room, and the room if that empties it.
    pub fn delete_machine(&mut self, token: &String, machine_id: &String)
        ensures
            final(self).wf(),
            final(self)@ == after_delete(old(self)@, token@, machine_id@),
    {
        proof {
            use_type_invariant(&*self);
        }
        let mut rooms: Vec<Room> = Vec::new();
        std::mem::swap(&mut rooms, &mut self.rooms);
        delete_from(&mut rooms, token, machine_id);
        self.rooms = rooms;
    }
}

/// The cutoff that a sweep used is the one it was handed, or else one read off the clock.
spec fn cutoff_fits(fixed: Option<&str>, c: Seq<char>) -> bool {
    match fixed {
        Some(f) => c == f@,
        None => is_clock_cutoff(c),
    }
}

impl RelayState {
    /// Evicts stale entries room by room: against `fixed` where it is given, else against
    /// a cutoff read off the clock for each room. Returns the cutoff used for each token.
    fn evict_rooms(&mut self, fixed: Option<&str>) -> (cuts: Ghost<Map<Seq<char>, Seq<char>>>)
        ensures
            final(self).wf(),
            final(self)@ == after_eviction_by(old(self)@, cuts@),
            forall|t: Seq<char>| #[trigger]
                old(self)@.contains_key(t) ==> cuts@.contains_key(t) && cutoff_fits(
                    fixed,
                    cuts@[t],
                ),
    {
        proof {
            use_type_invariant(&*self);
        }
        let mut rooms: Vec<Room> = Vec::new();
        std::mem::swap(&mut rooms, &mut self.rooms);
        let r = evict_from(&mut rooms, fixed);
        self.rooms = rooms;
        r
    }

    /// Evicts every entry whose `last_seen_at` does not sort after `cutoff`, and every room
    /// that this empties.
    pub fn evict_stale(&mut self, cutoff: &str)
        ensures
            final(self).wf(),
            final(self)@ == after_eviction(old(self)@, cutoff@),
    {
        proof {
            use_type_invariant(&*self);
        }
        let ghost m0 = self@;
        let cuts = self.evict_rooms(Some(cutoff));
        proof {
            assert(after_eviction_by(m0, cuts@) =~= after_eviction(m0, cutoff@));
        }
    }

    /// The relay's periodic sweep: each room is compared against the RFC 3339 text of one
    /// day before the moment the clock is read for it.
    pub fn sweep_stale(&mut self)
        ensures
            final(self).wf(),
            exists|cuts: Map<Seq<char>, Seq<char>>|
                {
                    &&& forall|t: Seq<char>| #[trigger]
                        old(self)@.contains_key(t) ==> cuts.contains_key(t) && is_clock_cutoff(
                            cuts[t],
                        )
                    &&& final(self)@ == after_eviction_by(old(self)@, cuts)
                },
    {
        proof {
            use_type_invariant(&*self);
        }
        let ghost m0 = self@;
        let cuts = self.evict_rooms(None);
        proof {
            assert forall|t: Seq<char>| #[trigger] m0.contains_key(t) implies cuts@.contains_key(t)
                && is_clock_cutoff(cuts@[t]) by {
                assert(cutoff_fits(None, cuts@[t]));
            }
        }
    }
}

/// `Option<&str>` taken to its character sequence.
pub open spec fn opt_str(o: Option<&str>) -> Option<Seq<char>> {
    match o {
        Some(s) => Some(s@),
        None => None,
    }
}

/// The token that an `Authorization` header value carries: what follows `"Bearer "`,
/// trimmed, where that is not empty.
pub open spec fn bearer_token(header: Option<Seq<char>>) -> Option<Seq<char>> {
    match header {
        Some(h) => if "Bearer "@.is_prefix_of(h) && trim_ws(h.skip("Bearer "@.len() as int)).len()
            > 0 {
            Some(trim_ws(h.skip("Bearer "@.len() as int)))
        } else {
            None
        },
        None => None,
    }
}

/// The sync token of a request, from the text of its `Authorization` header (`None` where
/// the request has no such header, or its value is not visible ASCII).
pub fn extract_bearer_token(authorization: Option<&str>) -> (r: Option<String>)
    ensures
        opt_text(r) == bearer_token(opt_str(authorization)),
{
    let value = match authorization {
        Some(v) => v,
        None => return None,
    };
    let rest = match strip_prefix_of(value, "Bearer ") {
        Some(rest) => rest,
        None => return None,
    };
    let token = trim_whitespace(rest.as_str());
    if token.as_str().is_empty() {
        None
    } else {
        Some(token)
    }
}

impl PushRejection {
    /// The HTTP status that the relay answers a refused push with: 400 for a push that
    /// names no machine, 429 for one machine too many.
    pub fn status_code(&self) -> (code: u16)
        ensures
            code == match self {
                PushRejection::MissingMachineId => 400u16,
                PushRejection::TooManyMachines => 429u16,
            },
    {
        match self {
            PushRejection::MissingMachineId => 400,
            PushRejection::TooManyMachines => 429,
        }
    }
}

/// On a well-formed relay every room holds at least one and at most
/// `MAX_MACHINES_PER_TOKEN` machines, and every entry is stored under its own machine id.
pub proof fn law_rooms_bounded(s: &RelayState, token: Seq<char>)
    requires
        s.wf(),
        s@.contains_key(token),
    ensures
        s@[token].dom().finite(),
        0 < s@[token].len() <= MAX_MACHINES_PER_TOKEN,
        forall|id: Seq<char>| #[trigger]
            s@[token].contains_key(id) ==> s@[token][id].machine_id == id,
{
    let k = index_of_key(s.rooms@, room_key(), token);
    lemma_relay_map_at(s.rooms@, k);
    let r = s.rooms@[k];
    assert(room_ok(r));
    lemma_machine_map_len(r.machines@);
    assert forall|id: Seq<char>| #[trigger] s@[token].contains_key(id) implies s@[token][id].machine_id
        == id by {
        let j = index_of_key(r.machines@, machine_key(), id);
        lemma_machine_map_at(r.machines@, j);
    }
}

/// Read after write: once a push is recorded, the room of its token holds the pushed
/// entry under the pushed machine id, so a pull under that token returns it.
pub proof fn law_read_after_push(
    m: RelayMap,
    token: Seq<char>,
    push: MachinePushView,
    last_seen_at: Seq<char>,
)
    ensures
        room_of(after_push(m, token, push, last_seen_at), token).contains_key(push.machine_id),
        room_of(after_push(m, token, push, last_seen_at), token)[push.machine_id]
            == entry_for_push(push, last_seen_at),
{
}

/// A push under one token leaves the room of every other token as it was.
pub proof fn law_push_isolated(
    m: RelayMap,
    token: Seq<char>,
    push: MachinePushView,
    last_seen_at: Seq<char>,
    other: Seq<char>,
)
    requires
        other != token,
    ensures
        room_of(after_push(m, token, push, last_seen_at), other) == room_of(m, other),
{
}

/// A delete under one token leaves the room of every other token as it was.
pub proof fn law_delete_isolated(m: RelayMap, token: Seq<char>, id: Seq<char>, other: Seq<char>)
    requires
        other != token,
    ensures
        room_of(after_delete(m, token, id), other) == room_of(m, other),
{
}

/// After a delete the machine is gone from the room, and the room's other machines stay
/// as they were.
pub proof fn law_delete_removes(m: RelayMap, token: Seq<char>, id: Seq<char>)
    ensures
        room_of(after_delete(m, token, id), token) == room_of(m, token).remove(id),
{
    if m.contains_key(token) && m[token].remove(id) == RoomMap::empty() {
        assert(room_of(after_delete(m, token, id), token) =~= room_of(m, token).remove(id));
    }
}

/// Pushing again for a machine that the room already holds replaces its entry and leaves
/// the room's machines as they were.
pub proof fn law_repush_keeps_members(
    m: RelayMap,
    token: Seq<char>,
    push: MachinePushView,
    last_seen_at: Seq<char>,
)
    requires
        room_of(m, token).contains_key(push.machine_id),
    ensures
        room_of(after_push(m, token, push, last_seen_at), token).dom() == room_of(m, token).dom(),
{
    assert(room_of(after_push(m, token, push, last_seen_at), token).dom() =~= room_of(
        m,
        token,
    ).dom());
}

/// A push that the relay takes never lifts a room above `MAX_MACHINES_PER_TOKEN`.
pub proof fn law_push_within_limit(
    m: RelayMap,
    token: Seq<char>,
    push: MachinePushView,
    last_seen_at: Seq<char>,
)
    requires
        push_accepted(m, token, push.machine_id),
        room_of(m, token).dom().finite(),
        room_of(m, token).len() <= MAX_MACHINES_PER_TOKEN,
    ensures
        room_of(after_push(m, token, push, last_seen_at), token).dom().finite(),
        room_of(after_push(m, token, push, last_seen_at), token).len() <= MAX_MACHINES_PER_TOKEN,
{
    let before = room_of(m, token);
    let after = room_of(after_push(m, token, push, last_seen_at), token);
    assert(after.dom() =~= before.dom().insert(push.machine_id));
    if before.contains_key(push.machine_id) {
        assert(before.dom().insert(push.machine_id) =~= before.dom());
    }
}

/// An eviction sweep keeps exactly the fresh entries, unchanged, and drops the rest.
pub proof fn law_eviction_keeps_fresh(m: RelayMap, cutoff: Seq<char>, token: Seq<char>, id: Seq<char>)
    ensures
        room_of(after_eviction(m, cutoff), token).contains_key(id) <==> (room_of(
            m,
            token,
        ).contains_key(id) && is_fresh(room_of(m, token)[id], cutoff)),
        room_of(after_eviction(m, cutoff), token).contains_key(id) ==> room_of(
            after_eviction(m, cutoff),
            token,
        )[id] == room_of(m, token)[id],
{
    if m.contains_key(token) && room_of(m, token).contains_key(id) && is_fresh(
        room_of(m, token)[id],
        cutoff,
    ) {
        assert(has_fresh(m[token], cutoff));
    }
}

/// An eviction sweep leaves no empty room.
pub proof fn law_eviction_leaves_no_empty_room(m: RelayMap, cutoff: Seq<char>, token: Seq<char>)
    requires
        after_eviction(m, cutoff).contains_key(token),
    ensures
        exists|id: Seq<char>| #[trigger] after_eviction(m, cutoff)[token].contains_key(id),
{
    let id = choose|id: Seq<char>| m[token].contains_key(id) && is_fresh(#[trigger] m[token][id], cutoff);
    assert(after_eviction(m, cutoff)[token].contains_key(id));
}

/// In a sweep that compares the room of `token` against the cutoff of the clock reading
/// `now`, a machine of that room stays, unchanged, exactly when its `last_seen_at` sorts
/// after the RFC 3339 text of one day before `now`; every other machine is forgotten.
pub proof fn law_sweep_keeps_machines_seen_within_a_day(
    m: RelayMap,
    cuts: Map<Seq<char>, Seq<char>>,
    now: ClockReading,
    token: Seq<char>,
    id: Seq<char>,
)
    requires
        cuts.contains_key(token),
        cuts[token] == cutoff_text(now.unix_nanos()),
    ensures
        room_of(after_eviction_by(m, cuts), token).contains_key(id) <==> (room_of(
            m,
            token,
        ).contains_key(id) && bytes_lt(
            encode_utf8(cutoff_text(now.unix_nanos())),
            encode_utf8(room_of(m, token)[id].last_seen_at),
        )),
        room_of(after_eviction_by(m, cuts), token).contains_key(id) ==> room_of(
            after_eviction_by(m, cuts),
            token,
        )[id] == room_of(m, token)[id],
{
    let c = cutoff_text(now.unix_nanos());
    if m.contains_key(token) && room_of(m, token).contains_key(id) && is_fresh(
        room_of(m, token)[id],
        c,
    ) {
        assert(has_fresh(m[token], c));
    }
}

/// Sweeping twice against the same cutoff leaves the relay as one sweep does.
pub proof fn law_eviction_idempotent(m: RelayMap, cutoff: Seq<char>)
    ensures
        after_eviction(after_eviction(m, cutoff), cutoff) == after_eviction(m, cutoff),
{
    let e = after_eviction(m, cutoff);
    let e2 = after_eviction(e, cutoff);
    assert forall|t: Seq<char>| #[trigger] e.contains_key(t) implies e2.contains_key(t) && e2[t]
        == e[t] by {
        let id = choose|id: Seq<char>| m[t].contains_key(id) && is_fresh(#[trigger] m[t][id], cutoff);
        assert(e[t].contains_key(id));
        assert(is_fresh(e[t][id], cutoff));
        assert(has_fresh(e[t], cutoff));
        assert(fresh_part(e[t], cutoff) =~= e[t]);
    }
    assert(e2 =~= e);
}

/// The port the relay listens on when `RELAY_PORT` does not name one.
pub const DEFAULT_RELAY_PORT: u16 = 8090;

/// The largest request body, in bytes, that the relay reads.
pub const MAX_BODY_BYTES: usize = 262_144;

/// How often, in seconds, the relay sweeps out machines that have gone quiet.
pub const SWEEP_INTERVAL_SECS: u64 = 600;

/// The port the relay listens on, from the text of `RELAY_PORT` where it is set: the port
/// it names, else `DEFAULT_RELAY_PORT`.
pub fn relay_port(setting: Option<&str>) -> (r: u16)
    ensures
        r == match opt_str(setting) {
            Some(s) => match parse_u16_spec(s) {
                Some(p) => p,
                None => DEFAULT_RELAY_PORT,
            },
            None => DEFAULT_RELAY_PORT,
        },
{
    match setting {
        Some(s) => match parse_u16(s) {
            Some(p) => p,
            None => DEFAULT_RELAY_PORT,
        },
        None => DEFAULT_RELAY_PORT,
    }
}

/// Deleting a machine that a push has just added undoes the push: the relay is as it
/// was before, provided none of its rooms was empty (as on a well-formed relay).
pub proof fn law_delete_undoes_new_push(
    m: RelayMap,
    token: Seq<char>,
    push: MachinePushView,
    last_seen_at: Seq<char>,
)
    requires
        forall|t: Seq<char>| #[trigger] m.contains_key(t) ==> m[t] != RoomMap::empty(),
        !room_of(m, token).contains_key(push.machine_id),
    ensures
        after_delete(after_push(m, token, push, last_seen_at), token, push.machine_id) == m,
{
    let id = push.machine_id;
    let pushed = after_push(m, token, push, last_seen_at);
    assert(pushed[token].remove(id) =~= room_of(m, token));
    if m.contains_key(token) {
        assert(pushed.insert(token, room_of(m, token)) =~= m);
    } else {
        assert(pushed.remove(token) =~= m);
    }
}

/// A request under one token that can change the relay: a push (seen at `last_seen_at`)
/// or the delete of a machine.
pub enum RelayRequest {
    Push { push: MachinePushView, last_seen_at: Seq<char> },
    Delete { machine_id: Seq<char> },
}

/// The relay after one request under `token`; a push that is refused changes nothing.
pub open spec fn after_request(m: RelayMap, token: Seq<char>, req: RelayRequest) -> RelayMap {
    match req {
        RelayRequest::Push { push, last_seen_at } => if push_accepted(m, token, push.machine_id) {
            after_push(m, token, push, last_seen_at)
        } else {
            m
        },
        RelayRequest::Delete { machine_id } => after_delete(m, token, machine_id),
    }
}

/// The relay after the requests `reqs`, in order, all under `token`.
pub open spec fn after_requests(m: RelayMap, token: Seq<char>, reqs: Seq<RelayRequest>) -> RelayMap
    decreases reqs.len(),
{
    if reqs.len() == 0 {
        m
    } else {
        after_request(after_requests(m, token, reqs.drop_last()), token, reqs.last())
    }
}

/// Any number of pushes and deletes under one token leave the room of every other token
/// as it was, so a pull under that other token returns the same machines.
pub proof fn law_requests_isolated(
    m: RelayMap,
    token: Seq<char>,
    reqs: Seq<RelayRequest>,
    other: Seq<char>,
)
    requires
        other != token,
    ensures
        room_of(after_requests(m, token, reqs), other) == room_of(m, other),
    decreases reqs.len(),
{
    if reqs.len() > 0 {
        law_requests_isolated(m, token, reqs.drop_last(), other);
        let before = after_requests(m, token, reqs.drop_last());
        match reqs.last() {
            RelayRequest::Push { push, last_seen_at } => {
                law_push_isolated(before, token, push, last_seen_at, other);
            },
            RelayRequest::Delete { machine_id } => {
                law_delete_isolated(before, token, machine_id, other);
            },
        }
    }
}

} // verus!
