//! The room replica: authoritative local state for one subscribed room.
//!
//! The replica holds the room's static terrain, its objects and flags and
//! the users they mention, and is mutated only by applying the incremental
//! `RoomUpdate` deltas the detail channel delivers.  Applying a delta walks
//! its object entries in order: a null patch removes the object, a patch for
//! a present object merges field by field, and any other patch deserializes
//! a brand-new record.  The first failing entry aborts the call with a
//! `MergeError`; entries already applied are not rolled back.

use vstd::prelude::*;
use vstd::string::*;

use crate::assoc::{
    assoc_map, find_key, keys_unique, lemma_assoc_absent, lemma_assoc_contains, lemma_assoc_get,
    lemma_assoc_push, lemma_assoc_remove, lemma_assoc_set,
};
use crate::objects::{
    clone_opt_string, opt_str_view, create_ok, created, merge_ok, merged, user_created, user_merged, Flag,
    FlagModel, ObjectPatch, ObjectPatchModel, RoomObject, RoomObjectModel, UserInfo, UserInfoModel,
    UserPatch, UserPatchModel,
};
use crate::room_name::RoomName;

verus! {

/// The identity of one subscription target: a room, on a shard when the
/// server has shards.
#[derive(Debug)]
pub struct RoomId {
    /// The shard the room is on, if any.
    pub shard: Option<String>,
    /// The room's coordinates.
    pub room_name: RoomName,
}

/// The mathematical value of a `RoomId`.
#[verifier::ext_equal]
pub struct RoomIdModel {
    pub shard: Option<Seq<char>>,
    pub room_name: RoomName,
}

impl View for RoomId {
    type V = RoomIdModel;

    open spec fn view(&self) -> RoomIdModel {
        RoomIdModel { shard: opt_str_view(self.shard), room_name: self.room_name }
    }
}

impl Clone for RoomId {
    fn clone(&self) -> (r: Self)
        ensures
            r == *self,
    {
        RoomId { shard: clone_opt_string(&self.shard), room_name: self.room_name }
    }
}

impl PartialEq for RoomId {
    fn eq(&self, other: &RoomId) -> (r: bool) {
        let shard_eq = match (&self.shard, &other.shard) {
            (Some(a), Some(b)) => crate::order::str_eq(a.as_str(), b.as_str()),
            (None, None) => true,
            _ => false,
        };
        let res = shard_eq && self.room_name == other.room_name;
        proof {
            if res {
                assert(self@ =~= other@);
            }
        }
        res
    }
}

impl vstd::std_specs::cmp::PartialEqSpecImpl for RoomId {
    open spec fn obeys_eq_spec() -> bool {
        true
    }

    open spec fn eq_spec(&self, other: &RoomId) -> bool {
        self@ == other@
    }
}

impl RoomIdModel {
    /// The displayed form: `shard:room` with a shard, else just the room.
    pub open spec fn spec_display(self) -> Seq<char> {
        match self.shard {
            Some(s) => s + ":"@ + self.room_name.spec_str(),
            None => self.room_name.spec_str(),
        }
    }
}

impl RoomId {
    /// Builds an identity from its parts.
    pub fn new(shard: Option<String>, room_name: RoomName) -> (r: RoomId)
        ensures
            r@.shard == opt_str_view(shard),
            r@.room_name == room_name,
    {
        RoomId { shard, room_name }
    }

    /// Renders the identity as `shard:room`, or just the room without one.
    pub fn display_string(&self) -> (r: String)
        ensures
            r@ == self@.spec_display(),
    {
        match &self.shard {
            Some(s) => {
                let mut out = s.clone();
                out.append(":");
                let rn = self.room_name.display_string();
                out.append(rn.as_str());
                proof {
                    assert(out@ =~= self@.spec_display());
                }
                out
            },
            None => self.room_name.display_string(),
        }
    }
}

/// The session's externally visible connection phase.
#[derive(Clone, Copy, Debug, PartialEq, Eq, Structural)]
pub enum ConnectionState {
    /// No live transport; the session will reconnect.
    Disconnected,
    /// Transport open, authentication sent and not yet answered.
    Authenticating,
    /// Authenticated and subscribed.
    Connected,
    /// Unrecoverable failure; the session is over.
    Error,
}

impl Default for ConnectionState {
    fn default() -> (r: Self)
        ensures
            r == ConnectionState::Disconnected,
    {
        ConnectionState::Disconnected
    }
}

impl ConnectionState {
    /// The displayed form of this state.
    pub open spec fn spec_display(self) -> Seq<char> {
        match self {
            ConnectionState::Disconnected => "disconnected"@,
            ConnectionState::Authenticating => "authenticating..."@,
            ConnectionState::Connected => "connected"@,
            ConnectionState::Error => "network error occurred, see log"@,
        }
    }

    /// Renders this state for the sidebar.
    pub fn display_string(&self) -> (r: String)
        ensures
            r@ == self.spec_display(),
    {
        match self {
            ConnectionState::Disconnected => String::from_str("disconnected"),
            ConnectionState::Authenticating => String::from_str("authenticating..."),
            ConnectionState::Connected => String::from_str("connected"),
            ConnectionState::Error => String::from_str("network error occurred, see log"),
        }
    }
}

/// The ground type of one terrain cell.
#[derive(Clone, Copy, Debug, PartialEq, Eq, Structural)]
pub enum TerrainType {
    /// Plain walkable ground.
    Plains,
    /// Swamp: walkable but slow.
    Swamp,
    /// Natural wall: not walkable.
    Wall,
    /// Swamp on top of a wall tile.
    SwampyWall,
}

/// The static 50 by 50 terrain grid of one room, fetched once per selection.
#[derive(Debug)]
pub struct Terrain {
    /// The room the grid belongs to.
    pub room_name: RoomName,
    /// The rows of the grid, row-major: `rows[y][x]`.
    pub rows: Vec<Vec<TerrainType>>,
}

/// The mathematical value of a `Terrain`.
#[verifier::ext_equal]
pub struct TerrainModel {
    pub room_name: RoomName,
    pub rows: Seq<Seq<TerrainType>>,
}

impl View for Terrain {
    type V = TerrainModel;

    open spec fn view(&self) -> TerrainModel {
        TerrainModel {
            room_name: self.room_name,
            rows: Seq::new(self.rows@.len(), |i: int| self.rows@[i]@),
        }
    }
}

impl TerrainModel {
    /// The grid is exactly 50 rows of 50 cells.
    pub open spec fn wf(self) -> bool {
        &&& self.rows.len() == 50
        &&& forall|y: int| 0 <= y < 50 ==> (#[trigger] self.rows[y]).len() == 50
    }
}

impl Terrain {
    /// Builds a terrain grid, checking that it is exactly 50 by 50.
    pub fn new(room_name: RoomName, rows: Vec<Vec<TerrainType>>) -> (r: Option<Terrain>)
        ensures
            match r {
                Some(t) => t@.wf() && t@.room_name == room_name && t@.rows == Seq::new(
                    rows@.len(),
                    |i: int| rows@[i]@,
                ),
                None => !(rows@.len() == 50 && forall|y: int|
                    0 <= y < 50 ==> (#[trigger] rows@[y]@).len() == 50),
            },
    {
        if rows.len() != 50 {
            return None;
        }
        let mut y: usize = 0;
        while y < 50
            invariant
                rows@.len() == 50,
                y <= 50,
                forall|k: int| 0 <= k < y ==> (#[trigger] rows@[k]@).len() == 50,
            decreases 50 - y,
        {
            if rows[y].len() != 50 {
                return None;
            }
            y = y + 1;
        }
        Some(Terrain { room_name, rows })
    }
}

/// One inbound delta for a room: an optional new game time, per-object
/// patches, a wholesale replacement flag list, and per-user patches.
#[derive(Debug)]
pub struct RoomUpdate {
    /// The game time of the tick the delta describes, when sent.
    pub game_time: Option<u32>,
    /// Object entries in arrival order; `None` is the JSON null patch that
    /// removes the object.
    pub objects: Vec<(String, Option<ObjectPatch>)>,
    /// The room's full flag list.
    pub flags: Vec<Flag>,
    /// User entries in arrival order; `None` removes the user.
    pub users: Vec<(String, Option<UserPatch>)>,
}

/// The mathematical value of a `RoomUpdate`.
#[verifier::ext_equal]
pub struct RoomUpdateModel {
    pub game_time: Option<u32>,
    pub objects: Seq<(Seq<char>, Option<ObjectPatchModel>)>,
    pub flags: Seq<FlagModel>,
    pub users: Seq<(Seq<char>, Option<UserPatchModel>)>,
}

impl View for RoomUpdate {
    type V = RoomUpdateModel;

    open spec fn view(&self) -> RoomUpdateModel {
        RoomUpdateModel {
            game_time: self.game_time,
            objects: Seq::new(
                self.objects@.len(),
                |i: int|
                    (
                        self.objects@[i].0@,
                        match self.objects@[i].1 {
                            Some(p) => Some(p@),
                            None => None,
                        },
                    ),
            ),
            flags: Seq::new(self.flags@.len(), |i: int| self.flags@[i]@),
            users: Seq::new(
                self.users@.len(),
                |i: int|
                    (
                        self.users@[i].0@,
                        match self.users@[i].1 {
                            Some(p) => Some(p@),
                            None => None,
                        },
                    ),
            ),
        }
    }
}

/// Whether a patch keeps coordinates inside the 50 by 50 room.
pub open spec fn patch_coords_ok(p: Option<ObjectPatchModel>) -> bool {
    match p {
        Some(patch) => (match patch.x {
            Some(x) => x < 50,
            None => true,
        }) && (match patch.y {
            Some(y) => y < 50,
            None => true,
        }),
        None => true,
    }
}

impl RoomUpdateModel {
    /// Every position the delta mentions lies inside the room.
    pub open spec fn wf(self) -> bool {
        &&& forall|i: int| 0 <= i < self.objects.len() ==> patch_coords_ok(#[trigger] self.objects[i].1)
        &&& forall|i: int|
            0 <= i < self.flags.len() ==> (#[trigger] self.flags[i]).x < 50 && self.flags[i].y < 50
    }
}

/// A failed object entry: the offending id and the raw patch, kept for
/// diagnostics.
#[derive(Debug)]
pub struct MergeError {
    /// The id of the entry that failed.
    pub id: String,
    /// The patch that could not be applied.
    pub patch: ObjectPatch,
}

/// The mathematical value of a `MergeError`.
#[verifier::ext_equal]
pub struct MergeErrorModel {
    pub id: Seq<char>,
    pub patch: ObjectPatchModel,
}

impl View for MergeError {
    type V = MergeErrorModel;

    open spec fn view(&self) -> MergeErrorModel {
        MergeErrorModel { id: self.id@, patch: self.patch@ }
    }
}

/// The object map after one entry: a null patch removes the id, a patch for
/// a present id merges, any other patch deserializes a brand-new record.
/// `Err` is a merge or deserialize failure.
pub open spec fn apply_obj_entry(
    m: Map<Seq<char>, RoomObjectModel>,
    id: Seq<char>,
    p: Option<ObjectPatchModel>,
) -> Result<Map<Seq<char>, RoomObjectModel>, ()> {
    match p {
        None => Ok(m.remove(id)),
        Some(patch) => {
            if m.contains_key(id) {
                if merge_ok(m[id], patch) {
                    Ok(m.insert(id, merged(m[id], patch)))
                } else {
                    Err(())
                }
            } else {
                if create_ok(patch) {
                    Ok(m.insert(id, created(id, patch)))
                } else {
                    Err(())
                }
            }
        },
    }
}

/// The object map after a run of entries, together with the position of the
/// first failure: entries after it are not applied.
pub open spec fn apply_obj_entries(
    m: Map<Seq<char>, RoomObjectModel>,
    entries: Seq<(Seq<char>, Option<ObjectPatchModel>)>,
) -> (Map<Seq<char>, RoomObjectModel>, Option<int>)
    decreases entries.len(),
{
    if entries.len() == 0 {
        (m, None)
    } else {
        match apply_obj_entry(m, entries[0].0, entries[0].1) {
            Ok(m2) => {
                let rest = apply_obj_entries(m2, entries.drop_first());
                (
                    rest.0,
                    match rest.1 {
                        Some(i) => Some(i + 1),
                        None => None,
                    },
                )
            },
            Err(e) => (m, Some(0int)),
        }
    }
}

/// The user map after one entry; user entries cannot fail.
pub open spec fn apply_user_entry(
    m: Map<Seq<char>, UserInfoModel>,
    id: Seq<char>,
    p: Option<UserPatchModel>,
) -> Map<Seq<char>, UserInfoModel> {
    match p {
        None => m.remove(id),
        Some(patch) => {
            if m.contains_key(id) {
                m.insert(id, user_merged(m[id], patch))
            } else {
                m.insert(id, user_created(patch))
            }
        },
    }
}

/// The user map after a run of entries.
pub open spec fn apply_user_entries(
    m: Map<Seq<char>, UserInfoModel>,
    entries: Seq<(Seq<char>, Option<UserPatchModel>)>,
) -> Map<Seq<char>, UserInfoModel>
    decreases entries.len(),
{
    if entries.len() == 0 {
        m
    } else {
        apply_user_entries(apply_user_entry(m, entries[0].0, entries[0].1), entries.drop_first())
    }
}

/// Law: a null patch for an id that is not present is a no-op, not an error.
pub proof fn lemma_null_patch_absent_noop(m: Map<Seq<char>, RoomObjectModel>, id: Seq<char>)
    requires
        !m.contains_key(id),
    ensures
        (apply_obj_entry(m, id, None) is Ok),
        apply_obj_entry(m, id, None)->Ok_0 == m,
{
    assert(m.remove(id) =~= m);
}

/// Extending a run of object entries by one applies that entry to the run's
/// result, unless the run already failed.
proof fn lemma_apply_obj_snoc(
    m: Map<Seq<char>, RoomObjectModel>,
    entries: Seq<(Seq<char>, Option<ObjectPatchModel>)>,
    e: (Seq<char>, Option<ObjectPatchModel>),
)
    ensures
        apply_obj_entries(m, entries.push(e)) == ({
            let run = apply_obj_entries(m, entries);
            match run.1 {
                Some(i) => run,
                None => match apply_obj_entry(run.0, e.0, e.1) {
                    Ok(m2) => (m2, None::<int>),
                    Err(err) => (run.0, Some(entries.len() as int)),
                },
            }
        }),
    decreases entries.len(),
{
    reveal_with_fuel(apply_obj_entries, 3);
    let t = entries.push(e);
    if entries.len() == 0 {
        assert(t[0] == e);
        assert(t.drop_first() =~= Seq::<(Seq<char>, Option<ObjectPatchModel>)>::empty());
    } else {
        assert(t[0] == entries[0]);
        assert(t.drop_first() =~= entries.drop_first().push(e));
        match apply_obj_entry(m, entries[0].0, entries[0].1) {
            Ok(m2) => {
                lemma_apply_obj_snoc(m2, entries.drop_first(), e);
            },
            Err(err) => {},
        }
    }
}

/// A run that has failed is not changed by further entries.
proof fn lemma_apply_obj_failed_stays(
    m: Map<Seq<char>, RoomObjectModel>,
    entries: Seq<(Seq<char>, Option<ObjectPatchModel>)>,
    more: Seq<(Seq<char>, Option<ObjectPatchModel>)>,
)
    requires
        (apply_obj_entries(m, entries).1 is Some),
    ensures
        apply_obj_entries(m, entries + more) == apply_obj_entries(m, entries),
    decreases entries.len(),
{
    reveal_with_fuel(apply_obj_entries, 2);
    assert(entries.len() > 0);
    assert((entries + more)[0] == entries[0]);
    assert((entries + more).drop_first() =~= entries.drop_first() + more);
    match apply_obj_entry(m, entries[0].0, entries[0].1) {
        Ok(m2) => {
            lemma_apply_obj_failed_stays(m2, entries.drop_first(), more);
        },
        Err(err) => {},
    }
}

/// A clean prefix followed by one successful entry is a clean longer prefix.
proof fn lemma_apply_obj_step(
    m0: Map<Seq<char>, RoomObjectModel>,
    entries: Seq<(Seq<char>, Option<ObjectPatchModel>)>,
    i: int,
    m1: Map<Seq<char>, RoomObjectModel>,
    m2: Map<Seq<char>, RoomObjectModel>,
)
    requires
        0 <= i < entries.len(),
        apply_obj_entries(m0, entries.subrange(0, i)) == (m1, None::<int>),
        apply_obj_entry(m1, entries[i].0, entries[i].1) == Ok::<_, ()>(m2),
    ensures
        apply_obj_entries(m0, entries.subrange(0, i + 1)) == (m2, None::<int>),
{
    assert(entries.subrange(0, i + 1) =~= entries.subrange(0, i).push(entries[i]));
    lemma_apply_obj_snoc(m0, entries.subrange(0, i), entries[i]);
}

/// A clean prefix followed by one failing entry fails the whole run there.
proof fn lemma_apply_obj_fail_at(
    m0: Map<Seq<char>, RoomObjectModel>,
    entries: Seq<(Seq<char>, Option<ObjectPatchModel>)>,
    i: int,
    m1: Map<Seq<char>, RoomObjectModel>,
)
    requires
        0 <= i < entries.len(),
        apply_obj_entries(m0, entries.subrange(0, i)) == (m1, None::<int>),
        (apply_obj_entry(m1, entries[i].0, entries[i].1) is Err),
    ensures
        apply_obj_entries(m0, entries) == (m1, Some(i)),
{
    assert(entries.subrange(0, i + 1) =~= entries.subrange(0, i).push(entries[i]));
    lemma_apply_obj_snoc(m0, entries.subrange(0, i), entries[i]);
    assert(apply_obj_entries(m0, entries.subrange(0, i + 1)) == (m1, Some(i)));
    assert(entries =~= entries.subrange(0, i + 1) + entries.skip(i + 1));
    lemma_apply_obj_failed_stays(m0, entries.subrange(0, i + 1), entries.skip(i + 1));
}

/// Extending a run of user entries by one applies that entry to the result.
proof fn lemma_apply_user_snoc(
    m: Map<Seq<char>, UserInfoModel>,
    entries: Seq<(Seq<char>, Option<UserPatchModel>)>,
    e: (Seq<char>, Option<UserPatchModel>),
)
    ensures
        apply_user_entries(m, entries.push(e)) == apply_user_entry(
            apply_user_entries(m, entries),
            e.0,
            e.1,
        ),
    decreases entries.len(),
{
    reveal_with_fuel(apply_user_entries, 3);
    let t = entries.push(e);
    if entries.len() == 0 {
        assert(t[0] == e);
        assert(t.drop_first() =~= Seq::<(Seq<char>, Option<UserPatchModel>)>::empty());
    } else {
        assert(t[0] == entries[0]);
        assert(t.drop_first() =~= entries.drop_first().push(e));
        lemma_apply_user_snoc(apply_user_entry(m, entries[0].0, entries[0].1), entries.drop_first(), e);
    }
}


/// The replica model after one delta, with whether every object entry
/// applied: the time always advances, the maps advance to the first failure,
/// and flags and users change only on success.
pub open spec fn spec_apply(room: RoomModel, u: RoomUpdateModel) -> (RoomModel, bool) {
    let run = apply_obj_entries(room.objects, u.objects);
    let time = match u.game_time {
        Some(t) => Some(t),
        None => room.last_update_time,
    };
    if run.1 is None {
        (
            RoomModel {
                last_update_time: time,
                room: room.room,
                terrain: room.terrain,
                objects: run.0,
                flags: u.flags,
                users: apply_user_entries(room.users, u.users),
            },
            true,
        )
    } else {
        (
            RoomModel {
                last_update_time: time,
                room: room.room,
                terrain: room.terrain,
                objects: run.0,
                flags: room.flags,
                users: room.users,
            },
            false,
        )
    }
}

/// The error a failing delta reports: the first failing entry's id and
/// patch.
pub open spec fn spec_apply_error(room: RoomModel, u: RoomUpdateModel) -> MergeErrorModel {
    let i = apply_obj_entries(room.objects, u.objects).1->0;
    MergeErrorModel { id: u.objects[i].0, patch: u.objects[i].1->0 }
}

/// The model of a freshly created replica.
pub open spec fn fresh_room_model(id: RoomIdModel, t: TerrainModel) -> RoomModel {
    RoomModel {
        last_update_time: None,
        room: id,
        terrain: t,
        objects: Map::empty(),
        flags: Seq::empty(),
        users: Map::empty(),
    }
}

/// The replica of one room.
#[derive(Debug)]
pub struct Room {
    /// The game time of the last applied update, if one carried a time.
    pub last_update_time: Option<u32>,
    /// The identity of the replicated room.
    pub room: RoomId,
    /// The room's static terrain.
    pub terrain: Terrain,
    /// The object records, keyed by object id; keys are unique.
    pub objects: Vec<(String, RoomObject)>,
    /// The room's flags, replaced wholesale by every update.
    pub flags: Vec<Flag>,
    /// The user records, keyed by user id; keys are unique.
    pub users: Vec<(String, UserInfo)>,
}

/// The mathematical value of a `Room`.
#[verifier::ext_equal]
pub struct RoomModel {
    pub last_update_time: Option<u32>,
    pub room: RoomIdModel,
    pub terrain: TerrainModel,
    pub objects: Map<Seq<char>, RoomObjectModel>,
    pub flags: Seq<FlagModel>,
    pub users: Map<Seq<char>, UserInfoModel>,
}

impl View for Room {
    type V = RoomModel;

    open spec fn view(&self) -> RoomModel {
        RoomModel {
            last_update_time: self.last_update_time,
            room: self.room@,
            terrain: self.terrain@,
            objects: assoc_map(self.objects@),
            flags: Seq::new(self.flags@.len(), |i: int| self.flags@[i]@),
            users: assoc_map(self.users@),
        }
    }
}

impl RoomModel {
    /// Replica sanity: a full terrain grid for this very room, every object
    /// keyed by its own id, and every position inside the room.
    pub open spec fn wf(self) -> bool {
        &&& self.terrain.wf()
        &&& self.terrain.room_name == self.room.room_name
        &&& forall|k: Seq<char>|
            self.objects.contains_key(k) ==> (#[trigger] self.objects[k]).id == k
                && self.objects[k].x < 50 && self.objects[k].y < 50
        &&& forall|i: int|
            0 <= i < self.flags.len() ==> (#[trigger] self.flags[i]).x < 50 && self.flags[i].y < 50
    }
}

impl Room {
    /// Representation sanity: unique keys beneath the maps, and a sane model.
    pub open spec fn wf(self) -> bool {
        &&& keys_unique(self.objects@)
        &&& keys_unique(self.users@)
        &&& self@.wf()
    }

    /// A fresh replica for one room: no objects, no flags, no users, no
    /// update applied yet.  The terrain must be the named room's own.
    pub fn new(room: RoomId, terrain: Terrain) -> (r: Room)
        requires
            terrain@.wf(),
            room.room_name == terrain.room_name,
        ensures
            r.wf(),
            r@ == (RoomModel {
                last_update_time: None,
                room: room@,
                terrain: terrain@,
                objects: Map::empty(),
                flags: Seq::empty(),
                users: Map::empty(),
            }),
    {
        let r = Room {
            last_update_time: None,
            room,
            terrain,
            objects: Vec::new(),
            flags: Vec::new(),
            users: Vec::new(),
        };
        proof {
            assert(r@.flags =~= Seq::<FlagModel>::empty());
            assert(r@ =~= RoomModel {
                last_update_time: None,
                room: r.room@,
                terrain: r.terrain@,
                objects: Map::empty(),
                flags: Seq::empty(),
                users: Map::empty(),
            });
        }
        r
    }

    /// The identity of the replicated room.
    pub fn room_id(&self) -> (r: &RoomId)
        ensures
            r@ == self@.room,
    {
        &self.room
    }

    /// The game time of the last applied update, if any update carried one.
    pub fn last_update_time(&self) -> (r: Option<u32>)
        ensures
            r == self@.last_update_time,
    {
        self.last_update_time
    }

    /// The object stored under `id`, if any.
    pub fn get_object(&self, id: &str) -> (r: Option<&RoomObject>)
        requires
            self.wf(),
        ensures
            match r {
                Some(o) => self@.objects.contains_key(id@) && o@ == self@.objects[id@],
                None => !self@.objects.contains_key(id@),
            },
    {
        proof {
            lemma_assoc_contains(self.objects@, id@);
        }
        match find_key(&self.objects, id) {
            Some(i) => {
                proof {
                    lemma_assoc_get(self.objects@, i as int);
                }
                Some(&self.objects[i].1)
            },
            None => None,
        }
    }

    /// Applies one inbound delta.
    ///
    /// The game time, when present, replaces the stored one even when the
    /// call fails.  Object entries are walked in order; the first failure
    /// aborts with a `MergeError` naming the entry, keeps everything already
    /// applied, and leaves flags and users untouched.  On success the flag
    /// list is replaced wholesale and the user entries are applied.
    pub fn update(&mut self, update: RoomUpdate) -> (r: Result<(), MergeError>)
        requires
            old(self).wf(),
            update@.wf(),
        ensures
            final(self).wf(),
            final(self)@.room == old(self)@.room,
            final(self)@.terrain == old(self)@.terrain,
            final(self)@.last_update_time == (match update@.game_time {
                Some(t) => Some(t),
                None => old(self)@.last_update_time,
            }),
            ({
                let run = apply_obj_entries(old(self)@.objects, update@.objects);
                match r {
                    Ok(okv) => {
                        &&& run.1 is None
                        &&& final(self)@.objects == run.0
                        &&& final(self)@.flags == update@.flags
                        &&& final(self)@.users == apply_user_entries(
                            old(self)@.users,
                            update@.users,
                        )
                    },
                    Err(e) => {
                        &&& run.1 is Some
                        &&& final(self)@.objects == run.0
                        &&& final(self)@.flags == old(self)@.flags
                        &&& final(self)@.users == old(self)@.users
                        &&& 0 <= run.1->0 < update@.objects.len()
                        &&& e@.id == update@.objects[run.1->0].0
                        &&& Some(e@.patch) == update@.objects[run.1->0].1
                    },
                }
            }),
    {
        let ghost u = update@;
        let ghost m0 = old(self)@.objects;
        let RoomUpdate { game_time, objects: upd_objects, flags: new_flags, users: upd_users } =
            update;

        if let Some(t) = game_time {
            self.last_update_time = Some(t);
        }

        let n = upd_objects.len();
        let mut idx: usize = 0;
        proof {
            assert(u.objects.subrange(0, 0) =~= Seq::<
                (Seq<char>, Option<ObjectPatchModel>),
            >::empty());
        }
        while idx < n
            invariant
                old(self).wf(),
                u == update@,
                u.wf(),
                n == upd_objects@.len(),
                u.objects.len() == n,
                forall|i: int|
                    0 <= i < n ==> (#[trigger] u.objects[i]) == (
                        upd_objects@[i].0@,
                        match upd_objects@[i].1 {
                            Some(p) => Some(p@),
                            None => None,
                        },
                    ),
                idx <= n,
                m0 == old(self)@.objects,
                keys_unique(self.objects@),
                apply_obj_entries(m0, u.objects.subrange(0, idx as int)) == (
                    assoc_map(self.objects@),
                    None::<int>,
                ),
                forall|k: Seq<char>|
                    assoc_map(self.objects@).contains_key(k) ==> (#[trigger] assoc_map(
                        self.objects@,
                    )[k]).id == k && assoc_map(self.objects@)[k].x < 50 && assoc_map(
                        self.objects@,
                    )[k].y < 50,
                self.room@ == old(self)@.room,
                self.terrain@ == old(self)@.terrain,
                self.flags@ == old(self).flags@,
                self.users@ == old(self).users@,
                self.last_update_time == (match u.game_time {
                    Some(t) => Some(t),
                    None => old(self)@.last_update_time,
                }),
            decreases n - idx,
        {
            let ghost pre = self.objects@;
            let ghost entry = u.objects[idx as int];
            let pair = &upd_objects[idx];
            match &pair.1 {
                None => {
                    match find_key(&self.objects, pair.0.as_str()) {
                        Some(i) => {
                            proof {
                                lemma_assoc_remove(pre, i as int);
                            }
                            let removed = self.objects.remove(i);
                            proof {
                                assert(assoc_map(self.objects@) =~= assoc_map(pre).remove(
                                    entry.0,
                                ));
                            }
                        },
                        None => {
                            proof {
                                lemma_assoc_absent(pre, entry.0);
                                assert(assoc_map(pre).remove(entry.0) =~= assoc_map(pre));
                            }
                        },
                    }
                    proof {
                        lemma_apply_obj_step(
                            m0,
                            u.objects,
                            idx as int,
                            assoc_map(pre),
                            assoc_map(self.objects@),
                        );
                    }
                },
                Some(p) => {
                    match find_key(&self.objects, pair.0.as_str()) {
                        Some(i) => {
                            proof {
                                lemma_assoc_get(pre, i as int);
                                lemma_assoc_contains(pre, entry.0);
                            }
                            let (key, mut obj) = self.objects.remove(i);
                            let ok = obj.merge(p);
                            self.objects.insert(i, (key, obj));
                            proof {
                                assert(self.objects@ =~= pre.update(
                                    i as int,
                                    (self.objects@[i as int].0, self.objects@[i as int].1),
                                ));
                                lemma_assoc_set(
                                    pre,
                                    i as int,
                                    self.objects@[i as int].0,
                                    self.objects@[i as int].1,
                                );
                            }
                            if !ok {
                                proof {
                                    assert(assoc_map(self.objects@) =~= assoc_map(pre));
                                    lemma_apply_obj_fail_at(
                                        m0,
                                        u.objects,
                                        idx as int,
                                        assoc_map(pre),
                                    );
                                    assert(self@.flags =~= old(self)@.flags);
                                }
                                return Err(MergeError { id: pair.0.clone(), patch: p.clone() });
                            }
                            proof {
                                lemma_apply_obj_step(
                                    m0,
                                    u.objects,
                                    idx as int,
                                    assoc_map(pre),
                                    assoc_map(self.objects@),
                                );
                            }
                        },
                        None => {
                            proof {
                                lemma_assoc_absent(pre, entry.0);
                            }
                            match RoomObject::from_patch(pair.0.clone(), p) {
                                Some(obj) => {
                                    proof {
                                        lemma_assoc_push(pre, pair.0, obj);
                                    }
                                    let key = pair.0.clone();
                                    self.objects.push((key, obj));
                                    proof {
                                        lemma_apply_obj_step(
                                            m0,
                                            u.objects,
                                            idx as int,
                                            assoc_map(pre),
                                            assoc_map(self.objects@),
                                        );
                                    }
                                },
                                None => {
                                    proof {
                                        lemma_apply_obj_fail_at(
                                            m0,
                                            u.objects,
                                            idx as int,
                                            assoc_map(pre),
                                        );
                                        assert(self@.flags =~= old(self)@.flags);
                                    }
                                    return Err(
                                        MergeError { id: pair.0.clone(), patch: p.clone() },
                                    );
                                },
                            }
                        },
                    }
                },
            }
            idx = idx + 1;
        }
        proof {
            assert(u.objects.subrange(0, n as int) =~= u.objects);
        }

        let ghost fl = new_flags@;
        self.flags = new_flags;

        let un = upd_users.len();
        let ghost users0 = assoc_map(old(self).users@);
        let mut uidx: usize = 0;
        proof {
            assert(u.users.subrange(0, 0) =~= Seq::<(Seq<char>, Option<UserPatchModel>)>::empty());
        }
        while uidx < un
            invariant
                old(self).wf(),
                u == update@,
                u.wf(),
                un == upd_users@.len(),
                u.users.len() == un,
                forall|i: int|
                    0 <= i < un ==> (#[trigger] u.users[i]) == (
                        upd_users@[i].0@,
                        match upd_users@[i].1 {
                            Some(p) => Some(p@),
                            None => None,
                        },
                    ),
                uidx <= un,
                m0 == old(self)@.objects,
                users0 == old(self)@.users,
                keys_unique(self.objects@),
                keys_unique(self.users@),
                apply_obj_entries(m0, u.objects) == (assoc_map(self.objects@), None::<int>),
                forall|k: Seq<char>|
                    assoc_map(self.objects@).contains_key(k) ==> (#[trigger] assoc_map(
                        self.objects@,
                    )[k]).id == k && assoc_map(self.objects@)[k].x < 50 && assoc_map(
                        self.objects@,
                    )[k].y < 50,
                self.room@ == old(self)@.room,
                self.terrain@ == old(self)@.terrain,
                fl.len() == u.flags.len(),
                forall|i: int| 0 <= i < fl.len() ==> (#[trigger] fl[i]@) == u.flags[i],
                self.flags@ == fl,
                self.last_update_time == (match u.game_time {
                    Some(t) => Some(t),
                    None => old(self)@.last_update_time,
                }),
                assoc_map(self.users@) == apply_user_entries(
                    users0,
                    u.users.subrange(0, uidx as int),
                ),
            decreases un - uidx,
        {
            let ghost pre = self.users@;
            let ghost entry = u.users[uidx as int];
            let pair = &upd_users[uidx];
            match &pair.1 {
                None => {
                    match find_key(&self.users, pair.0.as_str()) {
                        Some(i) => {
                            proof {
                                lemma_assoc_remove(pre, i as int);
                            }
                            let removed = self.users.remove(i);
                            proof {
                                assert(assoc_map(self.users@) =~= assoc_map(pre).remove(entry.0));
                            }
                        },
                        None => {
                            proof {
                                lemma_assoc_absent(pre, entry.0);
                                assert(assoc_map(pre).remove(entry.0) =~= assoc_map(pre));
                            }
                        },
                    }
                },
                Some(p) => {
                    match find_key(&self.users, pair.0.as_str()) {
                        Some(i) => {
                            proof {
                                lemma_assoc_get(pre, i as int);
                                lemma_assoc_contains(pre, entry.0);
                            }
                            let (key, mut info) = self.users.remove(i);
                            info.merge(p);
                            self.users.insert(i, (key, info));
                            proof {
                                assert(self.users@ =~= pre.update(
                                    i as int,
                                    (self.users@[i as int].0, self.users@[i as int].1),
                                ));
                                lemma_assoc_set(
                                    pre,
                                    i as int,
                                    self.users@[i as int].0,
                                    self.users@[i as int].1,
                                );
                            }
                        },
                        None => {
                            proof {
                                lemma_assoc_absent(pre, entry.0);
                            }
                            let info = UserInfo::from_patch(p);
                            proof {
                                lemma_assoc_push(pre, pair.0, info);
                            }
                            let key = pair.0.clone();
                            self.users.push((key, info));
                        },
                    }
                },
            }
            proof {
                assert(u.users.subrange(0, uidx + 1) =~= u.users.subrange(0, uidx as int).push(
                    entry,
                ));
                lemma_apply_user_snoc(users0, u.users.subrange(0, uidx as int), entry);
            }
            uidx = uidx + 1;
        }
        proof {
            assert(u.users.subrange(0, un as int) =~= u.users);
            assert(self@.flags =~= u.flags);
        }

        Ok(())
    }
}

} // verus!
