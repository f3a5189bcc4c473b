//! Plain-text description lines for hover information.
//!
//! Each helper renders one line (or nothing), including the trailing
//! newline, in the exact shape the sidebar shows.

use vstd::prelude::*;
use vstd::string::*;

use crate::assoc::{assoc_map, keys_unique, lemma_assoc_contains, lemma_assoc_get, find_key};
use crate::dec::{dec_int, push_dec_i32};
use crate::objects::{RoomObject, RoomObjectModel, RoomObjectType, UserInfo, UserInfoModel};
use crate::visual::{cell_view, VisualObject, VisualObjectModel};

verus! {

/// The ` id: {id}` line.
pub open spec fn spec_fmt_id(id: Seq<char>) -> Seq<char> {
    " id: "@ + id + "\n"@
}

/// The ` hits: {hits}/{hits_max}` line.
pub open spec fn spec_fmt_hits(hits: int, hits_max: int) -> Seq<char> {
    " hits: "@ + dec_int(hits) + "/"@ + dec_int(hits_max) + "\n"@
}

/// Whether hit points are close enough to their maximum to show the maximum:
/// strictly above nine tenths of it.
pub open spec fn hits_near_max(hits: int, hits_max: int) -> bool {
    10 * hits > 9 * hits_max
}

/// The hit-point line for walls and ramparts, whose maximum is only worth
/// showing when the current value is near it.
pub open spec fn spec_fmt_hits_inf(hits: int, hits_max: int) -> Seq<char> {
    if hits_near_max(hits, hits_max) {
        spec_fmt_hits(hits, hits_max)
    } else {
        "hits: "@ + dec_int(hits) + "\n"@
    }
}

/// The ` energy: {energy}/{energy_capacity}` line.
pub open spec fn spec_fmt_energy(energy: int, energy_capacity: int) -> Seq<char> {
    " energy: "@ + dec_int(energy) + "/"@ + dec_int(energy_capacity) + "\n"@
}

/// The ` --disabled--` line, shown only for disabled structures.
pub open spec fn spec_fmt_disabled(disabled: bool) -> Seq<char> {
    if disabled {
        " --disabled--\n"@
    } else {
        Seq::<char>::empty()
    }
}

/// Renders the ` id: {id}` line.
pub fn fmt_id(id: &str) -> (r: String)
    ensures
        r@ == spec_fmt_id(id@),
{
    let mut s = String::new();
    s.append(" id: ");
    s.append(id);
    s.append("\n");
    proof {
        assert(s@ =~= spec_fmt_id(id@));
    }
    s
}

/// Renders the ` hits: {hits}/{hits_max}` line.
pub fn fmt_hits(hits: i32, hits_max: i32) -> (r: String)
    ensures
        r@ == spec_fmt_hits(hits as int, hits_max as int),
{
    let mut s = String::new();
    s.append(" hits: ");
    push_dec_i32(&mut s, hits);
    s.append("/");
    push_dec_i32(&mut s, hits_max);
    s.append("\n");
    proof {
        assert(s@ =~= spec_fmt_hits(hits as int, hits_max as int));
    }
    s
}

/// Renders the hit-point line for walls and ramparts: the maximum is shown
/// only when the current value is strictly above nine tenths of it.
pub fn fmt_hits_inf(hits: i32, hits_max: i32) -> (r: String)
    ensures
        r@ == spec_fmt_hits_inf(hits as int, hits_max as int),
{
    if 10 * (hits as i64) > 9 * (hits_max as i64) {
        fmt_hits(hits, hits_max)
    } else {
        let mut s = String::new();
        s.append("hits: ");
        push_dec_i32(&mut s, hits);
        s.append("\n");
        proof {
            assert(s@ =~= spec_fmt_hits_inf(hits as int, hits_max as int));
        }
        s
    }
}

/// Renders the ` energy: {energy}/{energy_capacity}` line.
pub fn fmt_energy(energy: i32, energy_capacity: i32) -> (r: String)
    ensures
        r@ == spec_fmt_energy(energy as int, energy_capacity as int),
{
    let mut s = String::new();
    s.append(" energy: ");
    push_dec_i32(&mut s, energy);
    s.append("/");
    push_dec_i32(&mut s, energy_capacity);
    s.append("\n");
    proof {
        assert(s@ =~= spec_fmt_energy(energy as int, energy_capacity as int));
    }
    s
}

/// Renders the ` --disabled--` line for disabled structures, or nothing.
pub fn fmt_disabled(disabled: bool) -> (r: String)
    ensures
        r@ == spec_fmt_disabled(disabled),
{
    let mut s = String::new();
    if disabled {
        s.append(" --disabled--\n");
        proof {
            assert(s@ =~= spec_fmt_disabled(disabled));
        }
    }
    s
}

/// The username stored for a user id, when the record holds one.
pub open spec fn spec_username(users: Map<Seq<char>, UserInfoModel>, id: Seq<char>) -> Option<
    Seq<char>,
> {
    if users.contains_key(id) {
        users[id].username
    } else {
        None
    }
}

/// The username for a user id, or `user {id}` when none is known.
pub open spec fn spec_username_or_fallback(
    users: Map<Seq<char>, UserInfoModel>,
    id: Seq<char>,
) -> Seq<char> {
    match spec_username(users, id) {
        Some(u) => u,
        None => "user "@ + id,
    }
}

/// The displayed name of one object kind.
pub open spec fn spec_kind_name(t: RoomObjectType) -> Seq<char> {
    match t {
        RoomObjectType::Road => "road"@,
        RoomObjectType::Container => "container"@,
        RoomObjectType::Tombstone => "tombstone"@,
        RoomObjectType::Resource => "resource"@,
        RoomObjectType::Rampart => "rampart"@,
        RoomObjectType::ConstructionSite => "construction site"@,
        RoomObjectType::Wall => "wall"@,
        RoomObjectType::Source => "source"@,
        RoomObjectType::Mineral => "mineral"@,
        RoomObjectType::KeeperLair => "keeper lair"@,
        RoomObjectType::Controller => "controller"@,
        RoomObjectType::Extractor => "extractor"@,
        RoomObjectType::Extension => "extension"@,
        RoomObjectType::Spawn => "spawn"@,
        RoomObjectType::Portal => "portal"@,
        RoomObjectType::Link => "link"@,
        RoomObjectType::Storage => "storage"@,
        RoomObjectType::Tower => "tower"@,
        RoomObjectType::Observer => "observer"@,
        RoomObjectType::PowerBank => "power bank"@,
        RoomObjectType::PowerSpawn => "power spawn"@,
        RoomObjectType::Lab => "lab"@,
        RoomObjectType::Terminal => "terminal"@,
        RoomObjectType::Nuker => "nuker"@,
        RoomObjectType::Creep => "creep"@,
    }
}

/// The displayed name of one object kind.
fn kind_name(t: RoomObjectType) -> (r: &'static str)
    ensures
        r@ == spec_kind_name(t),
{
    match t {
        RoomObjectType::Road => "road",
        RoomObjectType::Container => "container",
        RoomObjectType::Tombstone => "tombstone",
        RoomObjectType::Resource => "resource",
        RoomObjectType::Rampart => "rampart",
        RoomObjectType::ConstructionSite => "construction site",
        RoomObjectType::Wall => "wall",
        RoomObjectType::Source => "source",
        RoomObjectType::Mineral => "mineral",
        RoomObjectType::KeeperLair => "keeper lair",
        RoomObjectType::Controller => "controller",
        RoomObjectType::Extractor => "extractor",
        RoomObjectType::Extension => "extension",
        RoomObjectType::Spawn => "spawn",
        RoomObjectType::Portal => "portal",
        RoomObjectType::Link => "link",
        RoomObjectType::Storage => "storage",
        RoomObjectType::Tower => "tower",
        RoomObjectType::Observer => "observer",
        RoomObjectType::PowerBank => "power bank",
        RoomObjectType::PowerSpawn => "power spawn",
        RoomObjectType::Lab => "lab",
        RoomObjectType::Terminal => "terminal",
        RoomObjectType::Nuker => "nuker",
        RoomObjectType::Creep => "creep",
    }
}

/// The `[{owner}] ` prefix of an owned object's description.
pub open spec fn spec_user_prefix(
    o: RoomObjectModel,
    users: Map<Seq<char>, UserInfoModel>,
) -> Seq<char> {
    match o.user {
        Some(u) => "["@ + spec_username_or_fallback(users, u) + "] "@,
        None => Seq::empty(),
    }
}

/// The ` {name}` part of a named object's heading.
pub open spec fn spec_name_part(o: RoomObjectModel) -> Seq<char> {
    match o.name {
        Some(n) => " "@ + n,
        None => Seq::empty(),
    }
}

/// The hit-point line of an object's description, when it has hit points:
/// walls and ramparts show their huge maximum only near it.
pub open spec fn spec_hits_part(o: RoomObjectModel) -> Seq<char> {
    match (o.hits, o.hits_max) {
        (Some(h), Some(m)) => {
            if o.ty == RoomObjectType::Wall || o.ty == RoomObjectType::Rampart {
                spec_fmt_hits_inf(h as int, m as int)
            } else {
                spec_fmt_hits(h as int, m as int)
            }
        },
        _ => Seq::empty(),
    }
}

/// The disabled line, when the record says whether the structure is
/// disabled.
pub open spec fn spec_disabled_part(o: RoomObjectModel) -> Seq<char> {
    match o.disabled {
        Some(d) => spec_fmt_disabled(d),
        None => Seq::empty(),
    }
}

/// The energy line, when the record carries energy.
pub open spec fn spec_energy_part(o: RoomObjectModel) -> Seq<char> {
    match (o.energy, o.energy_capacity) {
        (Some(e), Some(c)) => spec_fmt_energy(e as int, c as int),
        _ => Seq::empty(),
    }
}

/// One object's description block: owner prefix, kind and name heading,
/// id, hit points, disabled mark, and energy.
pub open spec fn spec_object_info(
    o: RoomObjectModel,
    users: Map<Seq<char>, UserInfoModel>,
) -> Seq<char> {
    spec_user_prefix(o, users) + spec_kind_name(o.ty) + spec_name_part(o) + ":\n"@ + spec_fmt_id(
        o.id,
    ) + spec_hits_part(o) + spec_disabled_part(o) + spec_energy_part(o)
}

/// One entry's description: a terrain line, a flag line, or an object
/// block.
pub open spec fn spec_entry_info(
    v: VisualObjectModel,
    users: Map<Seq<char>, UserInfoModel>,
) -> Seq<char> {
    match v {
        VisualObjectModel::InterestingTerrain { ty, .. } => "terrain: "@ + ty.spec_display()
            + "\n"@,
        VisualObjectModel::Flag(f) => "flag "@ + f.name + "\n"@,
        VisualObjectModel::RoomObject(o) => spec_object_info(o, users),
    }
}

/// The description of a whole cell: each entry's description in stack
/// order.
pub open spec fn spec_info(
    items: Seq<VisualObjectModel>,
    users: Map<Seq<char>, UserInfoModel>,
) -> Seq<char>
    decreases items.len(),
{
    if items.len() == 0 {
        Seq::empty()
    } else {
        spec_info(items.drop_last(), users) + spec_entry_info(items.last(), users)
    }
}

/// What the hover pane needs to describe a cell: the last update's game
/// time and the room's user records for owner names.
pub struct InfoInfo<'a> {
    /// The game time of the last applied update.
    pub game_time: u32,
    /// The room's user records, keyed by user id; keys are unique.
    pub users: &'a Vec<(String, UserInfo)>,
}

impl<'a> InfoInfo<'a> {
    /// Bundles the context the hover pane formats against.
    pub fn new(game_time: u32, users: &'a Vec<(String, UserInfo)>) -> (r: InfoInfo<'a>)
        ensures
            r.game_time == game_time,
            r.users == users,
    {
        InfoInfo { game_time, users }
    }

    /// The username stored for `id`, when the record holds one.
    pub fn username(&self, id: &str) -> (r: Option<&'a str>)
        requires
            keys_unique(self.users@),
        ensures
            match r {
                Some(u) => spec_username(assoc_map(self.users@), id@) == Some(u@),
                None => spec_username(assoc_map(self.users@), id@) is None,
            },
    {
        proof {
            lemma_assoc_contains(self.users@, id@);
        }
        match find_key(self.users, id) {
            Some(i) => {
                proof {
                    lemma_assoc_get(self.users@, i as int);
                }
                match &self.users[i].1.username {
                    Some(u) => Some(u.as_str()),
                    None => None,
                }
            },
            None => None,
        }
    }

    /// The username for `id`, or `user {id}` when none is known.
    pub fn username_or_fallback(&self, id: &str) -> (r: String)
        requires
            keys_unique(self.users@),
        ensures
            r@ == spec_username_or_fallback(assoc_map(self.users@), id@),
    {
        match self.username(id) {
            Some(u) => String::from_str(u),
            None => {
                let mut s = String::from_str("user ");
                s.append(id);
                proof {
                    assert(s@ =~= "user "@ + id@);
                }
                s
            },
        }
    }
}

/// Renders one object's description block.
#[verifier::rlimit(50)]
fn object_info(o: &RoomObject, state: &InfoInfo) -> (r: String)
    requires
        keys_unique(state.users@),
    ensures
        r@ == spec_object_info(o@, assoc_map(state.users@)),
{
    let ghost um = assoc_map(state.users@);
    let mut s = String::new();
    match &o.user {
        Some(u) => {
            s.append("[");
            let owner = state.username_or_fallback(u.as_str());
            s.append(owner.as_str());
            s.append("] ");
        },
        None => {},
    }
    proof {
        assert(s@ =~= spec_user_prefix(o@, assoc_map(state.users@)));
    }
    s.append(kind_name(o.ty));
    match &o.name {
        Some(n) => {
            s.append(" ");
            s.append(n.as_str());
        },
        None => {},
    }
    proof {
        assert(s@ =~= spec_user_prefix(o@, um) + spec_kind_name(o@.ty) + spec_name_part(o@));
    }
    s.append(":\n");
    let idline = fmt_id(o.id.as_str());
    s.append(idline.as_str());
    proof {
        assert(s@ =~= spec_user_prefix(o@, um) + spec_kind_name(o@.ty) + spec_name_part(o@)
            + ":\n"@ + spec_fmt_id(o@.id));
    }
    match (o.hits, o.hits_max) {
        (Some(h), Some(m)) => {
            let line = if matches!(o.ty, RoomObjectType::Wall)
                || matches!(o.ty, RoomObjectType::Rampart) {
                fmt_hits_inf(h, m)
            } else {
                fmt_hits(h, m)
            };
            s.append(line.as_str());
        },
        _ => {},
    }
    proof {
        assert(s@ =~= spec_user_prefix(o@, um) + spec_kind_name(o@.ty) + spec_name_part(o@)
            + ":\n"@ + spec_fmt_id(o@.id) + spec_hits_part(o@));
    }
    match o.disabled {
        Some(d) => {
            let line = fmt_disabled(d);
            s.append(line.as_str());
        },
        None => {},
    }
    match (o.energy, o.energy_capacity) {
        (Some(e), Some(c)) => {
            let line = fmt_energy(e, c);
            s.append(line.as_str());
        },
        _ => {},
    }
    proof {
        assert(s@ =~= spec_object_info(o@, assoc_map(state.users@)));
    }
    s
}

/// Renders one entry's description.
fn entry_info(v: &VisualObject, state: &InfoInfo) -> (r: String)
    requires
        keys_unique(state.users@),
    ensures
        r@ == spec_entry_info(v@, assoc_map(state.users@)),
{
    match v {
        VisualObject::InterestingTerrain { ty, .. } => {
            let mut s = String::from_str("terrain: ");
            let name = ty.display_string();
            s.append(name.as_str());
            s.append("\n");
            proof {
                assert(s@ =~= spec_entry_info(v@, assoc_map(state.users@)));
            }
            s
        },
        VisualObject::Flag(f) => {
            let mut s = String::from_str("flag ");
            s.append(f.name.as_str());
            s.append("\n");
            proof {
                assert(s@ =~= spec_entry_info(v@, assoc_map(state.users@)));
            }
            s
        },
        VisualObject::RoomObject(o) => object_info(o, state),
    }
}

/// Renders the hover description of a whole cell: each entry described in
/// stack order.
pub fn info(things: &Vec<VisualObject>, state: &InfoInfo) -> (r: String)
    requires
        keys_unique(state.users@),
    ensures
        r@ == spec_info(cell_view(things@), assoc_map(state.users@)),
{
    let ghost users_m = assoc_map(state.users@);
    let mut s = String::new();
    let n = things.len();
    let mut i: usize = 0;
    proof {
        assert(cell_view(things@.subrange(0, 0)) =~= Seq::<VisualObjectModel>::empty());
    }
    while i < n
        invariant
            keys_unique(state.users@),
            users_m == assoc_map(state.users@),
            n == things@.len(),
            i <= n,
            s@ == spec_info(cell_view(things@.subrange(0, i as int)), users_m),
        decreases n - i,
    {
        let line = entry_info(&things[i], state);
        s.append(line.as_str());
        proof {
            let pre = cell_view(things@.subrange(0, i as int));
            let post = cell_view(things@.subrange(0, i + 1));
            assert(post.drop_last() =~= pre);
            assert(post.last() == things@[i as int]@);
        }
        i = i + 1;
    }
    proof {
        assert(things@.subrange(0, n as int) =~= things@);
        assert(cell_view(things@.subrange(0, n as int)) =~= cell_view(things@));
    }
    s
}

} // verus!
