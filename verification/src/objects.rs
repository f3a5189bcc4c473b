//! Room object records, their incremental patches, and the other record
//! kinds a room update carries.
//!
//! An update names objects by id and patches them field by field: a patch
//! field that is present overwrites the record's field, an absent one leaves
//! it unchanged.  A brand-new object is created from a patch that carries at
//! least its type and position.

use vstd::prelude::*;

verus! {

/// The view of an optional string: its characters, when present.
pub open spec fn opt_str_view(s: Option<String>) -> Option<Seq<char>> {
    match s {
        Some(v) => Some(v@),
        None => None,
    }
}

/// Every kind of room object, in display rank order: later kinds are drawn
/// above earlier ones when they share a cell.
#[derive(Clone, Copy, Debug, PartialEq, Eq, Hash, Structural)]
pub enum RoomObjectType {
    Road,
    Container,
    Tombstone,
    Resource,
    Rampart,
    ConstructionSite,
    Wall,
    Source,
    Mineral,
    KeeperLair,
    Controller,
    Extractor,
    Extension,
    Spawn,
    Portal,
    Link,
    Storage,
    Tower,
    Observer,
    PowerBank,
    PowerSpawn,
    Lab,
    Terminal,
    Nuker,
    Creep,
}

impl RoomObjectType {
    /// The display rank of this kind: the declared table, `Road` lowest and
    /// `Creep` highest.
    pub open spec fn spec_rank(self) -> int {
        match self {
            RoomObjectType::Road => 0,
            RoomObjectType::Container => 1,
            RoomObjectType::Tombstone => 2,
            RoomObjectType::Resource => 3,
            RoomObjectType::Rampart => 4,
            RoomObjectType::ConstructionSite => 5,
            RoomObjectType::Wall => 6,
            RoomObjectType::Source => 7,
            RoomObjectType::Mineral => 8,
            RoomObjectType::KeeperLair => 9,
            RoomObjectType::Controller => 10,
            RoomObjectType::Extractor => 11,
            RoomObjectType::Extension => 12,
            RoomObjectType::Spawn => 13,
            RoomObjectType::Portal => 14,
            RoomObjectType::Link => 15,
            RoomObjectType::Storage => 16,
            RoomObjectType::Tower => 17,
            RoomObjectType::Observer => 18,
            RoomObjectType::PowerBank => 19,
            RoomObjectType::PowerSpawn => 20,
            RoomObjectType::Lab => 21,
            RoomObjectType::Terminal => 22,
            RoomObjectType::Nuker => 23,
            RoomObjectType::Creep => 24,
        }
    }

    /// The display rank of this kind.
    pub fn rank(&self) -> (r: u32)
        ensures
            r as int == self.spec_rank(),
    {
        match self {
            RoomObjectType::Road => 0,
            RoomObjectType::Container => 1,
            RoomObjectType::Tombstone => 2,
            RoomObjectType::Resource => 3,
            RoomObjectType::Rampart => 4,
            RoomObjectType::ConstructionSite => 5,
            RoomObjectType::Wall => 6,
            RoomObjectType::Source => 7,
            RoomObjectType::Mineral => 8,
            RoomObjectType::KeeperLair => 9,
            RoomObjectType::Controller => 10,
            RoomObjectType::Extractor => 11,
            RoomObjectType::Extension => 12,
            RoomObjectType::Spawn => 13,
            RoomObjectType::Portal => 14,
            RoomObjectType::Link => 15,
            RoomObjectType::Storage => 16,
            RoomObjectType::Tower => 17,
            RoomObjectType::Observer => 18,
            RoomObjectType::PowerBank => 19,
            RoomObjectType::PowerSpawn => 20,
            RoomObjectType::Lab => 21,
            RoomObjectType::Terminal => 22,
            RoomObjectType::Nuker => 23,
            RoomObjectType::Creep => 24,
        }
    }
}

/// One owned object record of the replica.
#[derive(Debug)]
pub struct RoomObject {
    /// The server-assigned object id, the record's key.
    pub id: String,
    /// The object's kind.
    pub ty: RoomObjectType,
    /// Column within the room, 0 to 49.
    pub x: u32,
    /// Row within the room, 0 to 49.
    pub y: u32,
    /// Current hit points, for destructible objects.
    pub hits: Option<i32>,
    /// Maximum hit points, for destructible objects.
    pub hits_max: Option<i32>,
    /// Stored energy, for objects that hold energy.
    pub energy: Option<i32>,
    /// Energy capacity, for objects that hold energy.
    pub energy_capacity: Option<i32>,
    /// Owning user id, for owned objects.
    pub user: Option<String>,
    /// Display name, for creeps and similar named objects.
    pub name: Option<String>,
    /// Whether the structure is disabled.
    pub disabled: Option<bool>,
}

/// The mathematical value of a `RoomObject`.
#[verifier::ext_equal]
pub struct RoomObjectModel {
    pub id: Seq<char>,
    pub ty: RoomObjectType,
    pub x: u32,
    pub y: u32,
    pub hits: Option<i32>,
    pub hits_max: Option<i32>,
    pub energy: Option<i32>,
    pub energy_capacity: Option<i32>,
    pub user: Option<Seq<char>>,
    pub name: Option<Seq<char>>,
    pub disabled: Option<bool>,
}

impl View for RoomObject {
    type V = RoomObjectModel;

    open spec fn view(&self) -> RoomObjectModel {
        RoomObjectModel {
            id: self.id@,
            ty: self.ty,
            x: self.x,
            y: self.y,
            hits: self.hits,
            hits_max: self.hits_max,
            energy: self.energy,
            energy_capacity: self.energy_capacity,
            user: opt_str_view(self.user),
            name: opt_str_view(self.name),
            disabled: self.disabled,
        }
    }
}

impl Clone for RoomObject {
    fn clone(&self) -> (r: Self)
        ensures
            r == *self,
    {
        RoomObject {
            id: self.id.clone(),
            ty: self.ty,
            x: self.x,
            y: self.y,
            hits: self.hits,
            hits_max: self.hits_max,
            energy: self.energy,
            energy_capacity: self.energy_capacity,
            user: clone_opt_string(&self.user),
            name: clone_opt_string(&self.name),
            disabled: self.disabled,
        }
    }
}

/// Clones an optional string, keeping its value.
pub(crate) fn clone_opt_string(s: &Option<String>) -> (r: Option<String>)
    ensures
        r == *s,
{
    match s {
        Some(v) => Some(v.clone()),
        None => None,
    }
}

/// One per-field patch for a room object.
#[derive(Debug)]
pub struct ObjectPatch {
    /// The object's kind; on an existing record it must match.
    pub ty: Option<RoomObjectType>,
    /// New column within the room.
    pub x: Option<u32>,
    /// New row within the room.
    pub y: Option<u32>,
    /// New hit points.
    pub hits: Option<i32>,
    /// New maximum hit points.
    pub hits_max: Option<i32>,
    /// New stored energy.
    pub energy: Option<i32>,
    /// New energy capacity.
    pub energy_capacity: Option<i32>,
    /// New owning user id.
    pub user: Option<String>,
    /// New display name.
    pub name: Option<String>,
    /// New disabled flag.
    pub disabled: Option<bool>,
}

/// The mathematical value of an `ObjectPatch`.
#[verifier::ext_equal]
pub struct ObjectPatchModel {
    pub ty: Option<RoomObjectType>,
    pub x: Option<u32>,
    pub y: Option<u32>,
    pub hits: Option<i32>,
    pub hits_max: Option<i32>,
    pub energy: Option<i32>,
    pub energy_capacity: Option<i32>,
    pub user: Option<Seq<char>>,
    pub name: Option<Seq<char>>,
    pub disabled: Option<bool>,
}

impl View for ObjectPatch {
    type V = ObjectPatchModel;

    open spec fn view(&self) -> ObjectPatchModel {
        ObjectPatchModel {
            ty: self.ty,
            x: self.x,
            y: self.y,
            hits: self.hits,
            hits_max: self.hits_max,
            energy: self.energy,
            energy_capacity: self.energy_capacity,
            user: opt_str_view(self.user),
            name: opt_str_view(self.name),
            disabled: self.disabled,
        }
    }
}

impl Clone for ObjectPatch {
    fn clone(&self) -> (r: Self)
        ensures
            r == *self,
    {
        ObjectPatch {
            ty: self.ty,
            x: self.x,
            y: self.y,
            hits: self.hits,
            hits_max: self.hits_max,
            energy: self.energy,
            energy_capacity: self.energy_capacity,
            user: clone_opt_string(&self.user),
            name: clone_opt_string(&self.name),
            disabled: self.disabled,
        }
    }
}

impl ObjectPatch {
    /// The patch with no field present, the JSON `{}` of the wire protocol.
    pub fn empty() -> (r: ObjectPatch)
        ensures
            r@ == (ObjectPatchModel {
                ty: None,
                x: None,
                y: None,
                hits: None,
                hits_max: None,
                energy: None,
                energy_capacity: None,
                user: None,
                name: None,
                disabled: None,
            }),
    {
        ObjectPatch {
            ty: None,
            x: None,
            y: None,
            hits: None,
            hits_max: None,
            energy: None,
            energy_capacity: None,
            user: None,
            name: None,
            disabled: None,
        }
    }
}

/// Whether `p` can merge into an existing record `o`: its type, if present,
/// must match the record's.
pub open spec fn merge_ok(o: RoomObjectModel, p: ObjectPatchModel) -> bool {
    match p.ty {
        Some(t) => t == o.ty,
        None => true,
    }
}

/// The record after merging `p` into `o`: each present patch field
/// overwrites, each absent one leaves the record's field unchanged.
pub open spec fn merged(o: RoomObjectModel, p: ObjectPatchModel) -> RoomObjectModel {
    RoomObjectModel {
        id: o.id,
        ty: o.ty,
        x: or_else(p.x, o.x),
        y: or_else(p.y, o.y),
        hits: opt_or(p.hits, o.hits),
        hits_max: opt_or(p.hits_max, o.hits_max),
        energy: opt_or(p.energy, o.energy),
        energy_capacity: opt_or(p.energy_capacity, o.energy_capacity),
        user: opt_or_seq(p.user, o.user),
        name: opt_or_seq(p.name, o.name),
        disabled: opt_or(p.disabled, o.disabled),
    }
}

/// The patch field if present, else the record field.
pub open spec fn or_else(p: Option<u32>, o: u32) -> u32 {
    match p {
        Some(v) => v,
        None => o,
    }
}

/// The patch field if present, else the record field, both optional.
pub open spec fn opt_or<T>(p: Option<T>, o: Option<T>) -> Option<T> {
    match p {
        Some(v) => Some(v),
        None => o,
    }
}

/// `opt_or` at optional character sequences.
pub open spec fn opt_or_seq(p: Option<Seq<char>>, o: Option<Seq<char>>) -> Option<Seq<char>> {
    match p {
        Some(v) => Some(v),
        None => o,
    }
}

/// Whether `p` can stand as a brand-new full record: it must carry at least
/// a type and a position.
pub open spec fn create_ok(p: ObjectPatchModel) -> bool {
    p.ty is Some && p.x is Some && p.y is Some
}

/// The brand-new record a full patch deserializes to.
pub open spec fn created(id: Seq<char>, p: ObjectPatchModel) -> RoomObjectModel {
    RoomObjectModel {
        id: id,
        ty: p.ty->0,
        x: p.x->0,
        y: p.y->0,
        hits: p.hits,
        hits_max: p.hits_max,
        energy: p.energy,
        energy_capacity: p.energy_capacity,
        user: p.user,
        name: p.name,
        disabled: p.disabled,
    }
}

impl RoomObjectType {
    /// The kind of the given object.
    pub fn of(obj: &RoomObject) -> (r: RoomObjectType)
        ensures
            r == obj@.ty,
    {
        obj.ty
    }
}

impl RoomObject {
    /// Merges `patch` into this record, field by field.  Fails, leaving the
    /// record unchanged, exactly when the patch names a different type.
    pub fn merge(&mut self, patch: &ObjectPatch) -> (r: bool)
        ensures
            r == merge_ok(old(self)@, patch@),
            r ==> final(self)@ == merged(old(self)@, patch@),
            !r ==> final(self)@ == old(self)@,
    {
        if let Some(t) = patch.ty {
            if !(t == self.ty) {
                return false;
            }
        }
        if let Some(v) = patch.x {
            self.x = v;
        }
        if let Some(v) = patch.y {
            self.y = v;
        }
        if let Some(v) = patch.hits {
            self.hits = Some(v);
        }
        if let Some(v) = patch.hits_max {
            self.hits_max = Some(v);
        }
        if let Some(v) = patch.energy {
            self.energy = Some(v);
        }
        if let Some(v) = patch.energy_capacity {
            self.energy_capacity = Some(v);
        }
        match &patch.user {
            Some(u) => {
                self.user = Some(u.clone());
            },
            None => {},
        }
        match &patch.name {
            Some(n) => {
                self.name = Some(n.clone());
            },
            None => {},
        }
        if let Some(v) = patch.disabled {
            self.disabled = Some(v);
        }
        proof {
            assert(self@ =~= merged(old(self)@, patch@));
        }
        true
    }

    /// Deserializes a brand-new full record from `patch`, keyed by `id`.
    /// Fails exactly when the patch misses the type or the position.
    pub fn from_patch(id: String, patch: &ObjectPatch) -> (r: Option<RoomObject>)
        ensures
            match r {
                Some(o) => create_ok(patch@) && o@ == created(id@, patch@),
                None => !create_ok(patch@),
            },
    {
        let ty = match patch.ty {
            Some(t) => t,
            None => {
                return None;
            },
        };
        let x = match patch.x {
            Some(v) => v,
            None => {
                return None;
            },
        };
        let y = match patch.y {
            Some(v) => v,
            None => {
                return None;
            },
        };
        let o = RoomObject {
            id,
            ty,
            x,
            y,
            hits: patch.hits,
            hits_max: patch.hits_max,
            energy: patch.energy,
            energy_capacity: patch.energy_capacity,
            user: clone_opt_string(&patch.user),
            name: clone_opt_string(&patch.name),
            disabled: patch.disabled,
        };
        proof {
            assert(o@ =~= created(o.id@, patch@));
        }
        Some(o)
    }
}

/// Law: merging a fixed patch is idempotent.  Re-applying the terminal patch
/// of an object to the merged record succeeds and changes nothing.
pub proof fn lemma_merge_idempotent(o: RoomObjectModel, p: ObjectPatchModel)
    requires
        merge_ok(o, p),
    ensures
        merge_ok(merged(o, p), p),
        merged(merged(o, p), p) == merged(o, p),
{
    assert(merged(merged(o, p), p) =~= merged(o, p));
}

/// One flag of the room, wholesale-replaced on every update.
#[derive(Debug)]
pub struct Flag {
    /// The flag's name, unique per user.
    pub name: String,
    /// Primary color code.
    pub primary_color: u8,
    /// Secondary color code.
    pub secondary_color: u8,
    /// Column within the room, 0 to 49.
    pub x: u32,
    /// Row within the room, 0 to 49.
    pub y: u32,
}

/// The mathematical value of a `Flag`.
#[verifier::ext_equal]
pub struct FlagModel {
    pub name: Seq<char>,
    pub primary_color: u8,
    pub secondary_color: u8,
    pub x: u32,
    pub y: u32,
}

impl View for Flag {
    type V = FlagModel;

    open spec fn view(&self) -> FlagModel {
        FlagModel {
            name: self.name@,
            primary_color: self.primary_color,
            secondary_color: self.secondary_color,
            x: self.x,
            y: self.y,
        }
    }
}

impl Clone for Flag {
    fn clone(&self) -> (r: Self)
        ensures
            r == *self,
    {
        Flag {
            name: self.name.clone(),
            primary_color: self.primary_color,
            secondary_color: self.secondary_color,
            x: self.x,
            y: self.y,
        }
    }
}

/// One user's record, kept for name lookups in the sidebar.
#[derive(Debug)]
pub struct UserInfo {
    /// The user's display name, when the server has sent it.
    pub username: Option<String>,
}

/// The mathematical value of a `UserInfo`.
#[verifier::ext_equal]
pub struct UserInfoModel {
    pub username: Option<Seq<char>>,
}

impl View for UserInfo {
    type V = UserInfoModel;

    open spec fn view(&self) -> UserInfoModel {
        UserInfoModel { username: opt_str_view(self.username) }
    }
}

impl Clone for UserInfo {
    fn clone(&self) -> (r: Self)
        ensures
            r == *self,
    {
        UserInfo { username: clone_opt_string(&self.username) }
    }
}

/// One per-field patch for a user record.
#[derive(Debug)]
pub struct UserPatch {
    /// New display name.
    pub username: Option<String>,
}

/// The mathematical value of a `UserPatch`.
#[verifier::ext_equal]
pub struct UserPatchModel {
    pub username: Option<Seq<char>>,
}

impl View for UserPatch {
    type V = UserPatchModel;

    open spec fn view(&self) -> UserPatchModel {
        UserPatchModel { username: opt_str_view(self.username) }
    }
}

impl Clone for UserPatch {
    fn clone(&self) -> (r: Self)
        ensures
            r == *self,
    {
        UserPatch { username: clone_opt_string(&self.username) }
    }
}

/// The user record after merging `p` into `u`.
pub open spec fn user_merged(u: UserInfoModel, p: UserPatchModel) -> UserInfoModel {
    UserInfoModel { username: opt_or_seq(p.username, u.username) }
}

/// The brand-new user record a patch deserializes to.
pub open spec fn user_created(p: UserPatchModel) -> UserInfoModel {
    UserInfoModel { username: p.username }
}

impl UserInfo {
    /// Merges `patch` into this user record; user merges never fail.
    pub fn merge(&mut self, patch: &UserPatch)
        ensures
            final(self)@ == user_merged(old(self)@, patch@),
    {
        match &patch.username {
            Some(u) => {
                self.username = Some(u.clone());
            },
            None => {},
        }
        proof {
            assert(self@ =~= user_merged(old(self)@, patch@));
        }
    }

    /// Deserializes a brand-new user record from `patch`.
    pub fn from_patch(patch: &UserPatch) -> (r: UserInfo)
        ensures
            r@ == user_created(patch@),
    {
        let u = UserInfo { username: clone_opt_string(&patch.username) };
        proof {
            assert(u@ =~= user_created(patch@));
        }
        u
    }
}

} // verus!
