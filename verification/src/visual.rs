//! The visualization builder: a disposable spatial snapshot of one replica.
//!
//! Building a snapshot seeds a 50 by 50 grid with one entry per interesting
//! terrain cell, one per flag and one per room object, sorts every cell by
//! the display order (terrain below flags below room objects), and renders
//! one string per row whose glyphs are each cell's topmost entry.

use vstd::prelude::*;
use vstd::string::*;

use crate::assoc::{assoc_map, lemma_assoc_get};
use crate::objects::{Flag, FlagModel, RoomObject, RoomObjectModel, UserInfo};
use crate::order::{lemma_lex_le_total, lemma_lex_le_transitive, lex_le, str_le};
use crate::room::{Room, RoomId, RoomIdModel, TerrainType};

verus! {

/// The terrain kinds worth drawing; plain ground yields nothing.
#[derive(Clone, Copy, Debug, PartialEq, Eq, Hash, Structural)]
pub enum InterestingTerrainType {
    /// Swamp ground, drawn below everything else.
    Swamp,
    /// Natural walls, including swampy ones.
    Wall,
}

/// The tie-break rank of a terrain kind: swamp below wall.
pub open spec fn itt_rank(t: InterestingTerrainType) -> int {
    match t {
        InterestingTerrainType::Swamp => 0,
        InterestingTerrainType::Wall => 1,
    }
}

/// The visual terrain kind of one terrain cell, if it is worth drawing.
pub open spec fn spec_from_terrain(t: TerrainType) -> Option<InterestingTerrainType> {
    match t {
        TerrainType::Plains => None,
        TerrainType::Swamp => Some(InterestingTerrainType::Swamp),
        TerrainType::Wall => Some(InterestingTerrainType::Wall),
        TerrainType::SwampyWall => Some(InterestingTerrainType::Wall),
    }
}

impl InterestingTerrainType {
    /// The visual terrain kind of one terrain cell: swamps and walls draw,
    /// plain ground does not.
    pub fn from_terrain(terrain: TerrainType) -> (r: Option<InterestingTerrainType>)
        ensures
            r == spec_from_terrain(terrain),
    {
        match terrain {
            TerrainType::Plains => None,
            TerrainType::Swamp => Some(InterestingTerrainType::Swamp),
            TerrainType::Wall => Some(InterestingTerrainType::Wall),
            TerrainType::SwampyWall => Some(InterestingTerrainType::Wall),
        }
    }

    /// The displayed name of this terrain kind.
    pub open spec fn spec_display(self) -> Seq<char> {
        match self {
            InterestingTerrainType::Swamp => "swamp"@,
            InterestingTerrainType::Wall => "wall"@,
        }
    }

    /// Renders this terrain kind's name.
    pub fn display_string(&self) -> (r: String)
        ensures
            r@ == self.spec_display(),
    {
        match self {
            InterestingTerrainType::Swamp => String::from_str("swamp"),
            InterestingTerrainType::Wall => String::from_str("wall"),
        }
    }
}

/// One renderable item occupying one cell.
#[derive(Debug)]
pub enum VisualObject {
    /// A terrain cell worth drawing.
    InterestingTerrain {
        /// Column of the cell.
        x: u32,
        /// Row of the cell.
        y: u32,
        /// The terrain kind.
        ty: InterestingTerrainType,
    },
    /// One flag.
    Flag(Flag),
    /// One room object, as a plain copy of its record.
    RoomObject(RoomObject),
}

/// The mathematical value of a `VisualObject`.
#[verifier::ext_equal]
pub enum VisualObjectModel {
    InterestingTerrain { x: u32, y: u32, ty: InterestingTerrainType },
    Flag(FlagModel),
    RoomObject(RoomObjectModel),
}

impl View for VisualObject {
    type V = VisualObjectModel;

    open spec fn view(&self) -> VisualObjectModel {
        match self {
            VisualObject::InterestingTerrain { x, y, ty } => {
                VisualObjectModel::InterestingTerrain { x: *x, y: *y, ty: *ty }
            },
            VisualObject::Flag(f) => VisualObjectModel::Flag(f@),
            VisualObject::RoomObject(o) => VisualObjectModel::RoomObject(o@),
        }
    }
}

impl Clone for VisualObject {
    fn clone(&self) -> (r: Self)
        ensures
            r == *self,
    {
        match self {
            VisualObject::InterestingTerrain { x, y, ty } => {
                VisualObject::InterestingTerrain { x: *x, y: *y, ty: *ty }
            },
            VisualObject::Flag(f) => VisualObject::Flag(f.clone()),
            VisualObject::RoomObject(o) => VisualObject::RoomObject(o.clone()),
        }
    }
}

/// The column an entry occupies.
pub open spec fn spec_x(v: VisualObjectModel) -> u32 {
    match v {
        VisualObjectModel::InterestingTerrain { x, .. } => x,
        VisualObjectModel::Flag(f) => f.x,
        VisualObjectModel::RoomObject(o) => o.x,
    }
}

/// The row an entry occupies.
pub open spec fn spec_y(v: VisualObjectModel) -> u32 {
    match v {
        VisualObjectModel::InterestingTerrain { y, .. } => y,
        VisualObjectModel::Flag(f) => f.y,
        VisualObjectModel::RoomObject(o) => o.y,
    }
}

/// The one-glyph symbol an entry is drawn as.
pub open spec fn spec_symbol(v: VisualObjectModel) -> Seq<char> {
    match v {
        VisualObjectModel::InterestingTerrain { ty: InterestingTerrainType::Swamp, .. } => "⌇"@,
        VisualObjectModel::InterestingTerrain { ty: InterestingTerrainType::Wall, .. } => "█"@,
        VisualObjectModel::Flag(f) => "F"@,
        VisualObjectModel::RoomObject(o) => match o.ty {
            crate::objects::RoomObjectType::ConstructionSite => "△"@,
            crate::objects::RoomObjectType::Container => "▫"@,
            crate::objects::RoomObjectType::Controller => "C"@,
            crate::objects::RoomObjectType::Creep => "●"@,
            crate::objects::RoomObjectType::Extension => "E"@,
            crate::objects::RoomObjectType::Extractor => "X"@,
            crate::objects::RoomObjectType::KeeperLair => "K"@,
            crate::objects::RoomObjectType::Lab => "L"@,
            crate::objects::RoomObjectType::Link => "I"@,
            crate::objects::RoomObjectType::Mineral => "M"@,
            crate::objects::RoomObjectType::Nuker => "N"@,
            crate::objects::RoomObjectType::Observer => "O"@,
            crate::objects::RoomObjectType::Portal => "P"@,
            crate::objects::RoomObjectType::PowerBank => "B"@,
            crate::objects::RoomObjectType::PowerSpawn => "R"@,
            crate::objects::RoomObjectType::Rampart => "▒"@,
            crate::objects::RoomObjectType::Resource => "▪"@,
            crate::objects::RoomObjectType::Road => "╬"@,
            crate::objects::RoomObjectType::Source => "S"@,
            crate::objects::RoomObjectType::Spawn => "P"@,
            crate::objects::RoomObjectType::Storage => "O"@,
            crate::objects::RoomObjectType::Terminal => "T"@,
            crate::objects::RoomObjectType::Tower => "♜"@,
            crate::objects::RoomObjectType::Tombstone => "⚰️"@,
            crate::objects::RoomObjectType::Wall => "W"@,
        },
    }
}

/// The glyph a whole cell is drawn as: its topmost entry's symbol, or a
/// blank for an empty cell.
pub open spec fn spec_cell_symbol(cell: Seq<VisualObjectModel>) -> Seq<char> {
    if cell.len() == 0 {
        " "@
    } else {
        spec_symbol(cell.last())
    }
}

impl VisualObject {
    /// The column this entry occupies.
    pub fn x(&self) -> (r: u32)
        ensures
            r == spec_x(self@),
    {
        match self {
            VisualObject::InterestingTerrain { x, .. } => *x,
            VisualObject::Flag(f) => f.x,
            VisualObject::RoomObject(o) => o.x,
        }
    }

    /// The row this entry occupies.
    pub fn y(&self) -> (r: u32)
        ensures
            r == spec_y(self@),
    {
        match self {
            VisualObject::InterestingTerrain { y, .. } => *y,
            VisualObject::Flag(f) => f.y,
            VisualObject::RoomObject(o) => o.y,
        }
    }

    /// The one-glyph symbol this entry is drawn as.
    pub fn to_symbol(&self) -> (r: &'static str)
        ensures
            r@ == spec_symbol(self@),
    {
        match self {
            VisualObject::InterestingTerrain { ty: InterestingTerrainType::Swamp, .. } => "⌇",
            VisualObject::InterestingTerrain { ty: InterestingTerrainType::Wall, .. } => "█",
            VisualObject::Flag(_) => "F",
            VisualObject::RoomObject(o) => match o.ty {
                crate::objects::RoomObjectType::ConstructionSite => "△",
                crate::objects::RoomObjectType::Container => "▫",
                crate::objects::RoomObjectType::Controller => "C",
                crate::objects::RoomObjectType::Creep => "●",
                crate::objects::RoomObjectType::Extension => "E",
                crate::objects::RoomObjectType::Extractor => "X",
                crate::objects::RoomObjectType::KeeperLair => "K",
                crate::objects::RoomObjectType::Lab => "L",
                crate::objects::RoomObjectType::Link => "I",
                crate::objects::RoomObjectType::Mineral => "M",
                crate::objects::RoomObjectType::Nuker => "N",
                crate::objects::RoomObjectType::Observer => "O",
                crate::objects::RoomObjectType::Portal => "P",
                crate::objects::RoomObjectType::PowerBank => "B",
                crate::objects::RoomObjectType::PowerSpawn => "R",
                crate::objects::RoomObjectType::Rampart => "▒",
                crate::objects::RoomObjectType::Resource => "▪",
                crate::objects::RoomObjectType::Road => "╬",
                crate::objects::RoomObjectType::Source => "S",
                crate::objects::RoomObjectType::Spawn => "P",
                crate::objects::RoomObjectType::Storage => "O",
                crate::objects::RoomObjectType::Terminal => "T",
                crate::objects::RoomObjectType::Tower => "♜",
                crate::objects::RoomObjectType::Tombstone => "⚰️",
                crate::objects::RoomObjectType::Wall => "W",
            },
        }
    }

    /// The glyph for a whole cell: the symbol of the last (topmost) entry,
    /// or a blank when the cell is empty.
    pub fn multiple_to_symbol(items: &[VisualObject]) -> (r: &'static str)
        ensures
            r@ == spec_cell_symbol(cell_view(items@)),
    {
        match items.last() {
            Some(obj) => obj.to_symbol(),
            None => " ",
        }
    }
}

/// Whether two entries count as the same for display: terrain by kind and
/// position, flags by their whole record, room objects by kind and id only,
/// so an object's other fields may change without reordering its cell.
pub open spec fn vo_same(a: VisualObjectModel, b: VisualObjectModel) -> bool {
    match (a, b) {
        (
            VisualObjectModel::InterestingTerrain { x: ax, y: ay, ty: aty },
            VisualObjectModel::InterestingTerrain { x: bx, y: by, ty: bty },
        ) => ax == bx && ay == by && aty == bty,
        (VisualObjectModel::Flag(af), VisualObjectModel::Flag(bf)) => af == bf,
        (VisualObjectModel::RoomObject(ao), VisualObjectModel::RoomObject(bo)) => ao.ty == bo.ty
            && ao.id == bo.id,
        _ => false,
    }
}

impl PartialEq for VisualObject {
    fn eq(&self, other: &VisualObject) -> (r: bool) {
        match (self, other) {
            (
                VisualObject::InterestingTerrain { x: ax, y: ay, ty: aty },
                VisualObject::InterestingTerrain { x: bx, y: by, ty: bty },
            ) => *ax == *bx && *ay == *by && *aty == *bty,
            (VisualObject::Flag(af), VisualObject::Flag(bf)) => crate::order::str_eq(
                af.name.as_str(),
                bf.name.as_str(),
            ) && af.primary_color == bf.primary_color && af.secondary_color == bf.secondary_color
                && af.x == bf.x && af.y == bf.y,
            (VisualObject::RoomObject(ao), VisualObject::RoomObject(bo)) => ao.ty == bo.ty
                && crate::order::str_eq(ao.id.as_str(), bo.id.as_str()),
            _ => false,
        }
    }
}

impl vstd::std_specs::cmp::PartialEqSpecImpl for VisualObject {
    open spec fn obeys_eq_spec() -> bool {
        true
    }

    open spec fn eq_spec(&self, other: &VisualObject) -> bool {
        vo_same(self@, other@)
    }
}

/// The display order of entries: terrain below flags below room objects;
/// terrain ties break by kind then column then row, flag ties by name, and
/// room object ties by kind rank then id.
pub open spec fn vo_le(a: VisualObjectModel, b: VisualObjectModel) -> bool {
    match (a, b) {
        (
            VisualObjectModel::InterestingTerrain { x: ax, y: ay, ty: aty },
            VisualObjectModel::InterestingTerrain { x: bx, y: by, ty: bty },
        ) => {
            if itt_rank(aty) != itt_rank(bty) {
                itt_rank(aty) < itt_rank(bty)
            } else if ax != bx {
                ax < bx
            } else {
                ay <= by
            }
        },
        (VisualObjectModel::InterestingTerrain { .. }, _) => true,
        (_, VisualObjectModel::InterestingTerrain { .. }) => false,
        (VisualObjectModel::Flag(af), VisualObjectModel::Flag(bf)) => lex_le(af.name, bf.name),
        (VisualObjectModel::Flag(af), _) => true,
        (_, VisualObjectModel::Flag(bf)) => false,
        (VisualObjectModel::RoomObject(ao), VisualObjectModel::RoomObject(bo)) => {
            if ao.ty.spec_rank() != bo.ty.spec_rank() {
                ao.ty.spec_rank() < bo.ty.spec_rank()
            } else {
                lex_le(ao.id, bo.id)
            }
        },
    }
}

/// The display order is total.
pub proof fn lemma_vo_le_total(a: VisualObjectModel, b: VisualObjectModel)
    ensures
        vo_le(a, b) || vo_le(b, a),
{
    match (a, b) {
        (VisualObjectModel::Flag(af), VisualObjectModel::Flag(bf)) => {
            lemma_lex_le_total(af.name, bf.name);
        },
        (VisualObjectModel::RoomObject(ao), VisualObjectModel::RoomObject(bo)) => {
            lemma_lex_le_total(ao.id, bo.id);
        },
        _ => {},
    }
}

/// The display order is transitive.
pub proof fn lemma_vo_le_transitive(a: VisualObjectModel, b: VisualObjectModel, c: VisualObjectModel)
    requires
        vo_le(a, b),
        vo_le(b, c),
    ensures
        vo_le(a, c),
{
    match (a, b, c) {
        (VisualObjectModel::Flag(af), VisualObjectModel::Flag(bf), VisualObjectModel::Flag(cf)) => {
            lemma_lex_le_transitive(af.name, bf.name, cf.name);
        },
        (
            VisualObjectModel::RoomObject(ao),
            VisualObjectModel::RoomObject(bo),
            VisualObjectModel::RoomObject(co),
        ) => {
            if ao.ty.spec_rank() == bo.ty.spec_rank() && bo.ty.spec_rank() == co.ty.spec_rank() {
                lemma_lex_le_transitive(ao.id, bo.id, co.id);
            }
        },
        _ => {},
    }
}

/// Whether `a` comes no later than `b` in the display order.
pub fn vo_le_exec(a: &VisualObject, b: &VisualObject) -> (r: bool)
    ensures
        r == vo_le(a@, b@),
{
    match (a, b) {
        (
            VisualObject::InterestingTerrain { x: ax, y: ay, ty: aty },
            VisualObject::InterestingTerrain { x: bx, y: by, ty: bty },
        ) => {
            let ar = match aty {
                InterestingTerrainType::Swamp => 0u32,
                InterestingTerrainType::Wall => 1u32,
            };
            let br = match bty {
                InterestingTerrainType::Swamp => 0u32,
                InterestingTerrainType::Wall => 1u32,
            };
            if ar != br {
                ar < br
            } else if *ax != *bx {
                *ax < *bx
            } else {
                *ay <= *by
            }
        },
        (VisualObject::InterestingTerrain { .. }, _) => true,
        (_, VisualObject::InterestingTerrain { .. }) => false,
        (VisualObject::Flag(af), VisualObject::Flag(bf)) => str_le(
            af.name.as_str(),
            bf.name.as_str(),
        ),
        (VisualObject::Flag(af), _) => true,
        (_, VisualObject::Flag(bf)) => false,
        (VisualObject::RoomObject(ao), VisualObject::RoomObject(bo)) => {
            let ar = ao.ty.rank();
            let br = bo.ty.rank();
            if ar != br {
                ar < br
            } else {
                str_le(ao.id.as_str(), bo.id.as_str())
            }
        },
    }
}

/// The sequence of entry values a cell holds.
pub open spec fn cell_view(s: Seq<VisualObject>) -> Seq<VisualObjectModel> {
    Seq::new(s.len(), |i: int| s[i]@)
}

/// Inserting one entry into a run, before the first entry it precedes.
pub open spec fn sorted_insert(s: Seq<VisualObjectModel>, x: VisualObjectModel) -> Seq<
    VisualObjectModel,
>
    decreases s.len(),
{
    if s.len() == 0 {
        seq![x]
    } else if vo_le(x, s[0]) {
        seq![x] + s
    } else {
        seq![s[0]] + sorted_insert(s.drop_first(), x)
    }
}

/// The display-sorted rearrangement of a run of entries, by insertion from
/// the left.
pub open spec fn sort_entries(s: Seq<VisualObjectModel>) -> Seq<VisualObjectModel>
    decreases s.len(),
{
    if s.len() == 0 {
        s
    } else {
        sorted_insert(sort_entries(s.drop_last()), s.last())
    }
}

/// Whether a run of entries is in display order.
pub open spec fn vo_sorted(s: Seq<VisualObjectModel>) -> bool {
    forall|i: int, j: int| 0 <= i < j < s.len() ==> vo_le(#[trigger] s[i], #[trigger] s[j])
}

/// Inserting keeps a run sorted, grows it by one, and adds exactly the new
/// entry to its members.
proof fn lemma_sorted_insert_props(s: Seq<VisualObjectModel>, x: VisualObjectModel)
    requires
        vo_sorted(s),
    ensures
        vo_sorted(sorted_insert(s, x)),
        sorted_insert(s, x).len() == s.len() + 1,
        forall|y: VisualObjectModel|
            #[trigger] sorted_insert(s, x).contains(y) <==> (s.contains(y) || y == x),
    decreases s.len(),
{
    let t = sorted_insert(s, x);
    if s.len() == 0 {
        assert forall|y: VisualObjectModel| #[trigger] t.contains(y) implies (s.contains(y) || y
            == x) by {
            let i = choose|i: int| 0 <= i < t.len() && t[i] == y;
        }
        assert(t[0] == x);
        assert(t.contains(x));
    } else if vo_le(x, s[0]) {
        assert(t =~= seq![x] + s);
        assert forall|i: int, j: int| 0 <= i < j < t.len() implies vo_le(t[i], t[j]) by {
            if i == 0 {
                if j > 1 {
                    lemma_vo_le_transitive(x, s[0], s[j - 1]);
                }
            }
        }
        assert forall|y: VisualObjectModel| #[trigger] t.contains(y) implies (s.contains(y) || y
            == x) by {
            let i = choose|i: int| 0 <= i < t.len() && t[i] == y;
            if i > 0 {
                assert(s[i - 1] == y);
            }
        }
        assert forall|y: VisualObjectModel| (s.contains(y) || y == x) implies #[trigger] t.contains(
            y,
        ) by {
            if s.contains(y) {
                let i = choose|i: int| 0 <= i < s.len() && s[i] == y;
                assert(t[i + 1] == y);
            } else {
                assert(t[0] == y);
            }
        }
    } else {
        lemma_vo_le_total(x, s[0]);
        assert(vo_sorted(s.drop_first()));
        lemma_sorted_insert_props(s.drop_first(), x);
        let rest = sorted_insert(s.drop_first(), x);
        assert(t =~= seq![s[0]] + rest);
        assert forall|i: int, j: int| 0 <= i < j < t.len() implies vo_le(t[i], t[j]) by {
            if i == 0 {
                assert(rest.contains(rest[j - 1]));
                if rest[j - 1] == x {
                    assert(vo_le(s[0], x));
                } else {
                    assert(s.drop_first().contains(rest[j - 1]));
                    let k = choose|k: int|
                        0 <= k < s.drop_first().len() && s.drop_first()[k] == rest[j - 1];
                    assert(s[k + 1] == rest[j - 1]);
                    assert(vo_le(s[0], s[k + 1]));
                }
            }
        }
        assert forall|y: VisualObjectModel| #[trigger] t.contains(y) implies (s.contains(y) || y
            == x) by {
            let i = choose|i: int| 0 <= i < t.len() && t[i] == y;
            if i == 0 {
                assert(s[0] == y);
            } else {
                assert(rest.contains(t[i]));
                if y != x {
                    assert(s.drop_first().contains(y));
                    let k = choose|k: int|
                        0 <= k < s.drop_first().len() && s.drop_first()[k] == y;
                    assert(s[k + 1] == y);
                }
            }
        }
        assert forall|y: VisualObjectModel| (s.contains(y) || y == x) implies #[trigger] t.contains(
            y,
        ) by {
            if y == x || s.drop_first().contains(y) {
                assert(rest.contains(y));
                let k = choose|k: int| 0 <= k < rest.len() && rest[k] == y;
                assert(t[k + 1] == y);
            } else {
                let i = choose|i: int| 0 <= i < s.len() && s[i] == y;
                if i == 0 {
                    assert(t[0] == y);
                } else {
                    assert(s.drop_first()[i - 1] == y);
                    assert(s.drop_first().contains(y));
                }
            }
        }
    }
}

/// Sorting a run keeps its length and its members, and orders it.
pub proof fn lemma_sort_entries_props(s: Seq<VisualObjectModel>)
    ensures
        vo_sorted(sort_entries(s)),
        sort_entries(s).len() == s.len(),
        forall|y: VisualObjectModel| #[trigger] sort_entries(s).contains(y) <==> s.contains(y),
    decreases s.len(),
{
    if s.len() > 0 {
        lemma_sort_entries_props(s.drop_last());
        lemma_sorted_insert_props(sort_entries(s.drop_last()), s.last());
        assert forall|y: VisualObjectModel| #[trigger] sort_entries(s).contains(y) implies
            s.contains(y) by {
            if s.drop_last().contains(y) {
                let i = choose|i: int| 0 <= i < s.drop_last().len() && s.drop_last()[i] == y;
                assert(s[i] == y);
            } else {
                assert(s[s.len() - 1] == y);
            }
        }
        assert forall|y: VisualObjectModel| s.contains(y) implies #[trigger] sort_entries(
            s,
        ).contains(y) by {
            let i = choose|i: int| 0 <= i < s.len() && s[i] == y;
            if i < s.len() - 1 {
                assert(s.drop_last()[i] == y);
                assert(s.drop_last().contains(y));
            }
        }
    }
}

/// Law: a room object entry always outranks a terrain or flag entry in the
/// display order, never the other way round.
pub proof fn lemma_room_object_outranks(a: VisualObjectModel, b: VisualObjectModel)
    requires
        b is RoomObject,
        !(a is RoomObject),
    ensures
        vo_le(a, b),
        !vo_le(b, a),
{
}

/// Law: a room object outranks every terrain or flag entry in its cell.  A
/// sorted cell holding at least one room object entry ends with a room
/// object entry, so the cell's rendered glyph is a room object's symbol.
pub proof fn lemma_room_object_tops_cell(s: Seq<VisualObjectModel>, i: int)
    requires
        0 <= i < s.len(),
        s[i] is RoomObject,
    ensures
        sort_entries(s).len() == s.len(),
        (sort_entries(s).last() is RoomObject),
        spec_cell_symbol(sort_entries(s)) == spec_symbol(sort_entries(s).last()),
{
    lemma_sort_entries_props(s);
    let t = sort_entries(s);
    assert(s.contains(s[i]));
    assert(t.contains(s[i]));
    let j = choose|j: int| 0 <= j < t.len() && t[j] == s[i];
    if j < t.len() - 1 {
        assert(vo_le(t[j], t[t.len() - 1]));
    }
}

/// Pushing onto a cell pushes the entry's value onto the cell's view.
proof fn lemma_cell_view_push(s: Seq<VisualObject>, v: VisualObject)
    ensures
        cell_view(s.push(v)) == cell_view(s).push(v@),
{
    assert(cell_view(s.push(v)) =~= cell_view(s).push(v@));
}

/// Inserts `x` into the (sorted) run `out`, before the first entry it
/// precedes.
fn insert_sorted(out: &mut Vec<VisualObject>, x: VisualObject)
    ensures
        cell_view(final(out)@) == sorted_insert(cell_view(old(out)@), x@),
{
    let n = out.len();
    let mut j: usize = 0;
    loop
        invariant
            n == out@.len(),
            j <= n,
            forall|k: int| 0 <= k < j ==> !vo_le(x@, #[trigger] out@[k]@),
        ensures
            n == out@.len(),
            j <= n,
            forall|k: int| 0 <= k < j ==> !vo_le(x@, #[trigger] out@[k]@),
            j < n ==> vo_le(x@, out@[j as int]@),
        decreases n - j,
    {
        if j >= n {
            break ;
        }
        if vo_le_exec(&x, &out[j]) {
            break ;
        }
        j = j + 1;
    }
    proof {
        lemma_insert_position(cell_view(out@), x@, j as int);
    }
    out.insert(j, x);
    proof {
        assert(cell_view(out@) =~= cell_view(old(out)@).insert(j as int, x@));
    }
}

/// Inserting at the first position whose entry follows `x` is what
/// `sorted_insert` does.
proof fn lemma_insert_position(s: Seq<VisualObjectModel>, x: VisualObjectModel, j: int)
    requires
        0 <= j <= s.len(),
        forall|k: int| 0 <= k < j ==> !vo_le(x, #[trigger] s[k]),
        j < s.len() ==> vo_le(x, s[j]),
    ensures
        sorted_insert(s, x) == s.insert(j, x),
    decreases j,
{
    if s.len() == 0 {
        assert(sorted_insert(s, x) =~= s.insert(0, x));
    } else if j == 0 {
        assert(sorted_insert(s, x) =~= s.insert(0, x));
    } else {
        assert(!vo_le(x, s[0]));
        lemma_insert_position(s.drop_first(), x, j - 1);
        assert(sorted_insert(s, x) == seq![s[0]] + s.drop_first().insert(j - 1, x));
        assert(seq![s[0]] + s.drop_first().insert(j - 1, x) =~= s.insert(j, x));
    }
}

/// Sorts one cell into display order.
fn sort_cell(v: Vec<VisualObject>) -> (r: Vec<VisualObject>)
    ensures
        cell_view(r@) == sort_entries(cell_view(v@)),
{
    let mut out: Vec<VisualObject> = Vec::new();
    let n = v.len();
    let mut k: usize = 0;
    proof {
        assert(cell_view(v@.subrange(0, 0)) =~= Seq::<VisualObjectModel>::empty());
        assert(cell_view(out@) =~= sort_entries(cell_view(v@.subrange(0, 0))));
    }
    while k < n
        invariant
            n == v@.len(),
            k <= n,
            cell_view(out@) == sort_entries(cell_view(v@.subrange(0, k as int))),
        decreases n - k,
    {
        let item = v[k].clone();
        insert_sorted(&mut out, item);
        proof {
            let pre = v@.subrange(0, k as int);
            let post = v@.subrange(0, k + 1);
            assert(post.drop_last() =~= pre);
            assert(cell_view(post).drop_last() =~= cell_view(pre));
            assert(cell_view(post).last() == v@[k as int]@);
        }
        k = k + 1;
    }
    proof {
        assert(v@.subrange(0, n as int) =~= v@);
        assert(cell_view(v@.subrange(0, n as int)) =~= cell_view(v@));
    }
    out
}

/// The 50 by 50 grid of stacked entries, held in a two-dimensional ndarray
/// array.  Every grid is built 50 by 50 and only `new` builds one, so the
/// accessors below never see an index out of bounds.
#[verifier::external_body]
pub struct VisualGrid {
    inner: ndarray::Array2<Vec<VisualObject>>,
}

/// What the grid holds: the stack of entries at each cell `(x, y)` of the
/// 50 by 50 room, keyed by column then row.
pub uninterp spec fn grid_cells(g: VisualGrid) -> Map<(int, int), Seq<VisualObject>>;

impl VisualGrid {
    /// A fresh grid of empty cells.
    ///
    /// Relies on ndarray's `Array::from_elem`: a 50 by 50 array whose every
    /// element is a clone of the given empty vector.
    #[verifier::external_body]
    pub(crate) fn new() -> (g: VisualGrid)
        ensures
            grid_cells(g) == Map::new(
                |p: (int, int)| 0 <= p.0 < 50 && 0 <= p.1 < 50,
                |p: (int, int)| Seq::<VisualObject>::empty(),
            ),
    {
        VisualGrid { inner: ndarray::Array::from_elem((50, 50), Vec::new()) }
    }

    /// Swaps the stack at `(x, y)` for `cell`, returning the old stack.
    ///
    /// Relies on ndarray's `ArrayBase::get_mut`: a mutable reference to the
    /// element at index `[x, y]`, which exists because every grid is 50 by
    /// 50.
    #[verifier::external_body]
    pub(crate) fn swap_cell(&mut self, x: usize, y: usize, cell: Vec<VisualObject>) -> (r: Vec<
        VisualObject,
    >)
        requires
            x < 50,
            y < 50,
        ensures
            r@ == grid_cells(*old(self))[(x as int, y as int)],
            grid_cells(*final(self)) == grid_cells(*old(self)).insert((x as int, y as int), cell@),
    {
        core::mem::replace(self.inner.get_mut((x, y)).unwrap(), cell)
    }

    /// The stack at `(x, y)`.
    ///
    /// Relies on ndarray's `ArrayBase::get`: a reference to the element at
    /// index `[x, y]`, which exists because every grid is 50 by 50.
    #[verifier::external_body]
    pub(crate) fn cell<'a>(&'a self, x: usize, y: usize) -> (r: &'a Vec<VisualObject>)
        requires
            x < 50,
            y < 50,
        ensures
            r@ == grid_cells(*self)[(x as int, y as int)],
    {
        self.inner.get((x, y)).unwrap()
    }
}

/// The disposable visualization snapshot of one replica.
pub struct VisualRoom {
    /// The game time of the last applied update, if any.
    pub last_update_time: Option<u32>,
    /// The identity of the visualized room.
    pub room_id: RoomId,
    /// The grid of stacked, display-ordered entries.
    pub objs: VisualGrid,
    /// One pre-rendered string per row, built eagerly.
    pub rendered_rows: Option<Vec<String>>,
    /// A copy of the replica's user records, for name lookups.
    pub users: Vec<(String, UserInfo)>,
}

/// The mathematical value of a `VisualRoom`.
#[verifier::ext_equal]
pub struct VisualRoomModel {
    pub last_update_time: Option<u32>,
    pub room_id: RoomIdModel,
    pub objs: Map<(int, int), Seq<VisualObjectModel>>,
    pub rendered_rows: Option<Seq<Seq<char>>>,
    pub users: Map<Seq<char>, crate::objects::UserInfoModel>,
}

impl View for VisualRoom {
    type V = VisualRoomModel;

    open spec fn view(&self) -> VisualRoomModel {
        VisualRoomModel {
            last_update_time: self.last_update_time,
            room_id: self.room_id@,
            objs: Map::new(
                |p: (int, int)| 0 <= p.0 < 50 && 0 <= p.1 < 50,
                |p: (int, int)| cell_view(grid_cells(self.objs)[p]),
            ),
            rendered_rows: match &self.rendered_rows {
                Some(rows) => Some(Seq::new(rows@.len(), |i: int| rows@[i]@)),
                None => None,
            },
            users: assoc_map(self.users@),
        }
    }
}

/// The grid's cells cover exactly the 50 by 50 room.
pub open spec fn grid_wf(g: VisualGrid) -> bool {
    forall|p: (int, int)|
        #[trigger] grid_cells(g).contains_key(p) <==> (0 <= p.0 < 50 && 0 <= p.1 < 50)
}

impl VisualRoom {
    /// A fresh snapshot with an empty grid and no rendered rows.
    fn new(last_update_time: Option<u32>, room_id: RoomId, users: Vec<(String, UserInfo)>) -> (r:
        VisualRoom)
        ensures
            r.last_update_time == last_update_time,
            r.room_id == room_id,
            r.users == users,
            (r.rendered_rows is None),
            grid_wf(r.objs),
            forall|p: (int, int)|
                0 <= p.0 < 50 && 0 <= p.1 < 50 ==> (#[trigger] grid_cells(r.objs)[p]) =~= Seq::<
                    VisualObject,
                >::empty(),
    {
        let r = VisualRoom {
            last_update_time,
            room_id,
            objs: VisualGrid::new(),
            rendered_rows: None,
            users,
        };
        r
    }

    /// Pushes one entry on top of the stack of its own cell.
    fn push_top(&mut self, item: VisualObject)
        requires
            grid_wf(old(self).objs),
            spec_x(item@) < 50,
            spec_y(item@) < 50,
        ensures
            grid_wf(final(self).objs),
            grid_cells(final(self).objs) == grid_cells(old(self).objs).insert(
                (spec_x(item@) as int, spec_y(item@) as int),
                grid_cells(old(self).objs)[(spec_x(item@) as int, spec_y(item@) as int)].push(item),
            ),
            final(self).last_update_time == old(self).last_update_time,
            final(self).room_id == old(self).room_id,
            final(self).rendered_rows == old(self).rendered_rows,
            final(self).users == old(self).users,
    {
        let x = item.x() as usize;
        let y = item.y() as usize;
        let mut cell = self.objs.swap_cell(x, y, Vec::new());
        cell.push(item);
        let emptied = self.objs.swap_cell(x, y, cell);
        proof {
            assert(grid_cells(self.objs) =~= grid_cells(old(self).objs).insert(
                (x as int, y as int),
                grid_cells(old(self).objs)[(x as int, y as int)].push(item),
            ));
        }
    }
}

impl VisualRoom {
    /// The display-ordered stack of entries at cell `(x, y)`.
    pub fn cell(&self, x: usize, y: usize) -> (r: &Vec<VisualObject>)
        requires
            x < 50,
            y < 50,
        ensures
            r@ == grid_cells(self.objs)[(x as int, y as int)],
    {
        self.objs.cell(x, y)
    }
}

/// The terrain entries one cell contributes: its own interesting terrain
/// kind, or nothing.
pub open spec fn terrain_entry(rows: Seq<Seq<TerrainType>>, x: int, y: int) -> Seq<
    VisualObjectModel,
> {
    match spec_from_terrain(rows[y][x]) {
        Some(t) => seq![
            VisualObjectModel::InterestingTerrain { x: x as u32, y: y as u32, ty: t },
        ],
        None => Seq::empty(),
    }
}

/// The flag entries at one cell, in list order.
pub open spec fn flags_at(flags: Seq<FlagModel>, x: int, y: int) -> Seq<VisualObjectModel>
    decreases flags.len(),
{
    if flags.len() == 0 {
        Seq::empty()
    } else {
        flags_at(flags.drop_last(), x, y) + (if flags.last().x == x && flags.last().y == y {
            seq![VisualObjectModel::Flag(flags.last())]
        } else {
            Seq::empty()
        })
    }
}

/// The room object entries at one cell, in the replica's storage order.
pub open spec fn objects_at(objs: Seq<(String, RoomObject)>, x: int, y: int) -> Seq<
    VisualObjectModel,
>
    decreases objs.len(),
{
    if objs.len() == 0 {
        Seq::empty()
    } else {
        objects_at(objs.drop_last(), x, y) + (if objs.last().1@.x == x && objs.last().1@.y == y {
            seq![VisualObjectModel::RoomObject(objs.last().1@)]
        } else {
            Seq::empty()
        })
    }
}

/// Everything seeded into one cell, in seeding order: terrain, then flags,
/// then room objects.
pub open spec fn cell_seed(room: Room, x: int, y: int) -> Seq<VisualObjectModel> {
    terrain_entry(room.terrain@.rows, x, y) + flags_at(room@.flags, x, y) + objects_at(
        room.objects@,
        x,
        y,
    )
}

/// The finished grid a replica visualizes to: each cell seeded and sorted.
pub open spec fn spec_cells(room: Room) -> Map<(int, int), Seq<VisualObjectModel>> {
    Map::new(
        |p: (int, int)| 0 <= p.0 < 50 && 0 <= p.1 < 50,
        |p: (int, int)| sort_entries(cell_seed(room, p.0, p.1)),
    )
}

/// The first `x` glyphs of row `y`.
pub open spec fn row_prefix(
    cells: Map<(int, int), Seq<VisualObjectModel>>,
    y: int,
    x: int,
) -> Seq<char>
    decreases x,
{
    if x <= 0 {
        Seq::empty()
    } else {
        row_prefix(cells, y, x - 1) + spec_cell_symbol(cells[(x - 1, y)])
    }
}

/// The fifty rendered rows of a finished grid.
pub open spec fn spec_rows(cells: Map<(int, int), Seq<VisualObjectModel>>) -> Seq<Seq<char>> {
    Seq::new(50, |y: int| row_prefix(cells, y, 50))
}

/// The visualization a replica builds: its time and identity, the seeded
/// and sorted grid, the fifty rendered rows, and a copy of its users.
pub open spec fn spec_visualize(room: Room) -> VisualRoomModel {
    VisualRoomModel {
        last_update_time: room.last_update_time,
        room_id: room.room@,
        objs: spec_cells(room),
        rendered_rows: Some(spec_rows(spec_cells(room))),
        users: assoc_map(room.users@),
    }
}

/// Law: building the visualization is deterministic.  Two builds from one
/// unchanged replica yield the same grid and the same rendered rows.
pub proof fn lemma_visualize_deterministic(room: Room, a: VisualRoomModel, b: VisualRoomModel)
    requires
        a == spec_visualize(room),
        b == spec_visualize(room),
    ensures
        a.objs == b.objs,
        a.rendered_rows == b.rendered_rows,
        a == b,
{
}

/// Clones the user records for the snapshot.
fn clone_users(v: &Vec<(String, UserInfo)>) -> (r: Vec<(String, UserInfo)>)
    ensures
        r@ == v@,
{
    let mut out: Vec<(String, UserInfo)> = Vec::new();
    let n = v.len();
    let mut i: usize = 0;
    while i < n
        invariant
            n == v@.len(),
            i <= n,
            out@ =~= v@.subrange(0, i as int),
        decreases n - i,
    {
        out.push((v[i].0.clone(), v[i].1.clone()));
        proof {
            assert(out@ =~= v@.subrange(0, i + 1));
        }
        i = i + 1;
    }
    proof {
        assert(v@.subrange(0, n as int) =~= v@);
    }
    out
}

impl Room {
    /// Builds the visualization snapshot of this replica: seeds the grid
    /// from terrain, flags and objects, sorts every cell into display
    /// order, and renders the fifty row strings eagerly.
    pub fn visualize(&self) -> (r: VisualRoom)
        requires
            self.wf(),
        ensures
            r@ == spec_visualize(*self),
    {
        let ghost rows_model = self.terrain@.rows;
        let mut room = VisualRoom::new(self.last_update_time, self.room.clone(), clone_users(&self.users));

        // Seed the interesting terrain, scanning row by row.
        let mut y: usize = 0;
        while y < 50
            invariant
                self.wf(),
                rows_model == self.terrain@.rows,
                y <= 50,
                grid_wf(room.objs),
                room.last_update_time == self.last_update_time,
                room.room_id@ == self.room@,
                (room.rendered_rows is None),
                room.users@ == self.users@,
                forall|px: int, py: int|
                    0 <= px < 50 && 0 <= py < 50 ==> cell_view(
                        #[trigger] grid_cells(room.objs)[(px, py)],
                    ) == (if py < y {
                        terrain_entry(rows_model, px, py)
                    } else {
                        Seq::<VisualObjectModel>::empty()
                    }),
            decreases 50 - y,
        {
            let mut x: usize = 0;
            while x < 50
                invariant
                    self.wf(),
                    rows_model == self.terrain@.rows,
                    y < 50,
                    x <= 50,
                    grid_wf(room.objs),
                    room.last_update_time == self.last_update_time,
                    room.room_id@ == self.room@,
                    (room.rendered_rows is None),
                    room.users@ == self.users@,
                    forall|px: int, py: int|
                        0 <= px < 50 && 0 <= py < 50 ==> cell_view(
                            #[trigger] grid_cells(room.objs)[(px, py)],
                        ) == (if py < y || (py == y && px < x) {
                            terrain_entry(rows_model, px, py)
                        } else {
                            Seq::<VisualObjectModel>::empty()
                        }),
                decreases 50 - x,
            {
                proof {
                    assert(self.terrain.rows@.len() == 50);
                    assert(rows_model[y as int] == self.terrain.rows@[y as int]@);
                    assert(rows_model[y as int].len() == 50);
                }
                let t = self.terrain.rows[y][x];
                let ghost pre = grid_cells(room.objs);
                if let Some(itt) = InterestingTerrainType::from_terrain(t) {
                    let vo = VisualObject::InterestingTerrain { x: x as u32, y: y as u32, ty: itt };
                    let ghost vov = vo;
                    room.push_top(vo);
                    proof {
                        lemma_cell_view_push(pre[(x as int, y as int)], vov);
                        assert(cell_view(grid_cells(room.objs)[(x as int, y as int)]) =~=
                            terrain_entry(rows_model, x as int, y as int));
                    }
                } else {
                    proof {
                        assert(cell_view(grid_cells(room.objs)[(x as int, y as int)]) =~=
                            terrain_entry(rows_model, x as int, y as int));
                    }
                }
                x = x + 1;
            }
            y = y + 1;
        }

        // Append the flags, in list order.
        let ghost flags_model = self@.flags;
        let fn_count = self.flags.len();
        let mut fi: usize = 0;
        proof {
            assert forall|px: int, py: int| 0 <= px < 50 && 0 <= py < 50 implies cell_view(
                #[trigger] grid_cells(room.objs)[(px, py)],
            ) == terrain_entry(rows_model, px, py) + flags_at(
                flags_model.subrange(0, 0),
                px,
                py,
            ) by {
                assert(flags_at(flags_model.subrange(0, 0), px, py) =~= Seq::<
                    VisualObjectModel,
                >::empty());
                assert(terrain_entry(rows_model, px, py) + Seq::<VisualObjectModel>::empty() =~=
                    terrain_entry(rows_model, px, py));
            }
        }
        while fi < fn_count
            invariant
                self.wf(),
                rows_model == self.terrain@.rows,
                flags_model == self@.flags,
                fn_count == self.flags@.len(),
                fi <= fn_count,
                grid_wf(room.objs),
                room.last_update_time == self.last_update_time,
                room.room_id@ == self.room@,
                (room.rendered_rows is None),
                room.users@ == self.users@,
                forall|px: int, py: int|
                    0 <= px < 50 && 0 <= py < 50 ==> cell_view(
                        #[trigger] grid_cells(room.objs)[(px, py)],
                    ) == terrain_entry(rows_model, px, py) + flags_at(
                        flags_model.subrange(0, fi as int),
                        px,
                        py,
                    ),
            decreases fn_count - fi,
        {
            let f = self.flags[fi].clone();
            proof {
                assert(f@ == flags_model[fi as int]);
                assert(self@.flags[fi as int].x < 50 && self@.flags[fi as int].y < 50);
            }
            let vo = VisualObject::Flag(f);
            let ghost vov = vo;
            let ghost pre = grid_cells(room.objs);
            let ghost fx = spec_x(vov@) as int;
            let ghost fy = spec_y(vov@) as int;
            room.push_top(vo);
            proof {
                lemma_cell_view_push(pre[(fx, fy)], vov);
                assert forall|px: int, py: int| 0 <= px < 50 && 0 <= py < 50 implies cell_view(
                    #[trigger] grid_cells(room.objs)[(px, py)],
                ) == terrain_entry(rows_model, px, py) + flags_at(
                    flags_model.subrange(0, fi + 1),
                    px,
                    py,
                ) by {
                    let sub1 = flags_model.subrange(0, fi + 1);
                    assert(sub1.drop_last() =~= flags_model.subrange(0, fi as int));
                    assert(sub1.last() == flags_model[fi as int]);
                    if px == fx && py == fy {
                        assert(cell_view(grid_cells(room.objs)[(px, py)]) =~= terrain_entry(
                            rows_model,
                            px,
                            py,
                        ) + flags_at(sub1, px, py));
                    } else {
                        assert(flags_at(sub1, px, py) =~= flags_at(
                            flags_model.subrange(0, fi as int),
                            px,
                            py,
                        ) + Seq::<VisualObjectModel>::empty());
                        assert(flags_at(sub1, px, py) =~= flags_at(
                            flags_model.subrange(0, fi as int),
                            px,
                            py,
                        ));
                    }
                }
            }
            fi = fi + 1;
        }

        // Append the room objects, in storage order.
        let ghost objs_model = self.objects@;
        let on_count = self.objects.len();
        let mut oi: usize = 0;
        proof {
            assert forall|px: int, py: int| 0 <= px < 50 && 0 <= py < 50 implies cell_view(
                #[trigger] grid_cells(room.objs)[(px, py)],
            ) == terrain_entry(rows_model, px, py) + flags_at(flags_model, px, py) + objects_at(
                objs_model.subrange(0, 0),
                px,
                py,
            ) by {
                assert(flags_model.subrange(0, fn_count as int) =~= flags_model);
                assert(objects_at(objs_model.subrange(0, 0), px, py) =~= Seq::<
                    VisualObjectModel,
                >::empty());
                assert(terrain_entry(rows_model, px, py) + flags_at(flags_model, px, py) + Seq::<
                    VisualObjectModel,
                >::empty() =~= terrain_entry(rows_model, px, py) + flags_at(flags_model, px, py));
            }
        }
        while oi < on_count
            invariant
                self.wf(),
                rows_model == self.terrain@.rows,
                flags_model == self@.flags,
                objs_model == self.objects@,
                on_count == self.objects@.len(),
                oi <= on_count,
                grid_wf(room.objs),
                room.last_update_time == self.last_update_time,
                room.room_id@ == self.room@,
                (room.rendered_rows is None),
                room.users@ == self.users@,
                forall|px: int, py: int|
                    0 <= px < 50 && 0 <= py < 50 ==> cell_view(
                        #[trigger] grid_cells(room.objs)[(px, py)],
                    ) == terrain_entry(rows_model, px, py) + flags_at(flags_model, px, py)
                        + objects_at(objs_model.subrange(0, oi as int), px, py),
            decreases on_count - oi,
        {
            let o = self.objects[oi].1.clone();
            proof {
                lemma_assoc_get(self.objects@, oi as int);
                assert(o@ == objs_model[oi as int].1@);
                assert(self@.objects == assoc_map(self.objects@));
                assert(self@.objects[objs_model[oi as int].0@].x < 50);
            }
            let vo = VisualObject::RoomObject(o);
            let ghost vov = vo;
            let ghost pre = grid_cells(room.objs);
            let ghost ox = spec_x(vov@) as int;
            let ghost oy = spec_y(vov@) as int;
            room.push_top(vo);
            proof {
                lemma_cell_view_push(pre[(ox, oy)], vov);
                assert forall|px: int, py: int| 0 <= px < 50 && 0 <= py < 50 implies cell_view(
                    #[trigger] grid_cells(room.objs)[(px, py)],
                ) == terrain_entry(rows_model, px, py) + flags_at(flags_model, px, py)
                    + objects_at(objs_model.subrange(0, oi + 1), px, py) by {
                    let sub1 = objs_model.subrange(0, oi + 1);
                    assert(sub1.drop_last() =~= objs_model.subrange(0, oi as int));
                    assert(sub1.last() == objs_model[oi as int]);
                    if px == ox && py == oy {
                        assert(cell_view(grid_cells(room.objs)[(px, py)]) =~= terrain_entry(
                            rows_model,
                            px,
                            py,
                        ) + flags_at(flags_model, px, py) + objects_at(sub1, px, py));
                    } else {
                        assert(objects_at(sub1, px, py) =~= objects_at(
                            objs_model.subrange(0, oi as int),
                            px,
                            py,
                        ));
                    }
                }
            }
            oi = oi + 1;
        }

        // Sort every cell into display order.
        let ghost seeded = grid_cells(room.objs);
        proof {
            assert(objs_model.subrange(0, on_count as int) =~= objs_model);
            assert forall|px: int, py: int| 0 <= px < 50 && 0 <= py < 50 implies cell_view(
                #[trigger] seeded[(px, py)],
            ) == cell_seed(*self, px, py) by {
                assert(cell_view(grid_cells(room.objs)[(px, py)]) == terrain_entry(
                    rows_model,
                    px,
                    py,
                ) + flags_at(flags_model, px, py) + objects_at(
                    objs_model.subrange(0, on_count as int),
                    px,
                    py,
                ));
            }
        }
        let mut sx: usize = 0;
        while sx < 50
            invariant
                sx <= 50,
                grid_wf(room.objs),
                room.last_update_time == self.last_update_time,
                room.room_id@ == self.room@,
                (room.rendered_rows is None),
                room.users@ == self.users@,
                forall|px: int, py: int|
                    0 <= px < 50 && 0 <= py < 50 ==> cell_view(#[trigger] seeded[(px, py)])
                        == cell_seed(*self, px, py),
                forall|px: int, py: int|
                    0 <= px < 50 && 0 <= py < 50 ==> cell_view(
                        #[trigger] grid_cells(room.objs)[(px, py)],
                    ) == (if px < sx {
                        sort_entries(cell_view(seeded[(px, py)]))
                    } else {
                        cell_view(seeded[(px, py)])
                    }),
            decreases 50 - sx,
        {
            let mut sy: usize = 0;
            while sy < 50
                invariant
                    sx < 50,
                    sy <= 50,
                    grid_wf(room.objs),
                    room.last_update_time == self.last_update_time,
                    room.room_id@ == self.room@,
                    (room.rendered_rows is None),
                    room.users@ == self.users@,
                    forall|px: int, py: int|
                        0 <= px < 50 && 0 <= py < 50 ==> cell_view(#[trigger] seeded[(px, py)])
                            == cell_seed(*self, px, py),
                    forall|px: int, py: int|
                        0 <= px < 50 && 0 <= py < 50 ==> cell_view(
                            #[trigger] grid_cells(room.objs)[(px, py)],
                        ) == (if px < sx || (px == sx && py < sy) {
                            sort_entries(cell_view(seeded[(px, py)]))
                        } else {
                            cell_view(seeded[(px, py)])
                        }),
                decreases 50 - sy,
            {
                let ghost pre = grid_cells(room.objs);
                let cell = room.objs.swap_cell(sx, sy, Vec::new());
                let sorted = sort_cell(cell);
                let emptied = room.objs.swap_cell(sx, sy, sorted);
                proof {
                    assert(grid_cells(room.objs) =~= pre.insert(
                        (sx as int, sy as int),
                        grid_cells(room.objs)[(sx as int, sy as int)],
                    ));
                }
                sy = sy + 1;
            }
            sx = sx + 1;
        }

        // Render the fifty row strings eagerly.
        let ghost cells_final = Map::<(int, int), Seq<VisualObjectModel>>::new(
            |p: (int, int)| 0 <= p.0 < 50 && 0 <= p.1 < 50,
            |p: (int, int)| cell_view(grid_cells(room.objs)[p]),
        );
        proof {
            assert(cells_final =~= spec_cells(*self));
        }
        let mut rows: Vec<String> = Vec::new();
        let mut ry: usize = 0;
        while ry < 50
            invariant
                ry <= 50,
                grid_wf(room.objs),
                room.last_update_time == self.last_update_time,
                room.room_id@ == self.room@,
                (room.rendered_rows is None),
                room.users@ == self.users@,
                cells_final == spec_cells(*self),
                forall|p: (int, int)|
                    0 <= p.0 < 50 && 0 <= p.1 < 50 ==> cell_view(
                        #[trigger] grid_cells(room.objs)[p],
                    ) == cells_final[p],
                rows@.len() == ry,
                forall|k: int| 0 <= k < ry ==> (#[trigger] rows@[k])@ == row_prefix(
                    cells_final,
                    k,
                    50,
                ),
            decreases 50 - ry,
        {
            let mut row = String::new();
            let mut rx: usize = 0;
            proof {
                assert(row@ =~= row_prefix(cells_final, ry as int, 0));
            }
            while rx < 50
                invariant
                    ry < 50,
                    rx <= 50,
                    grid_wf(room.objs),
                    forall|p: (int, int)|
                        0 <= p.0 < 50 && 0 <= p.1 < 50 ==> cell_view(
                            #[trigger] grid_cells(room.objs)[p],
                        ) == cells_final[p],
                    row@ == row_prefix(cells_final, ry as int, rx as int),
                decreases 50 - rx,
            {
                let cell = room.objs.cell(rx, ry);
                let sym = VisualObject::multiple_to_symbol(cell.as_slice());
                row.append(sym);
                rx = rx + 1;
            }
            rows.push(row);
            ry = ry + 1;
        }
        room.rendered_rows = Some(rows);

        proof {
            assert(room@.objs =~= spec_cells(*self));
            let shown = room@.rendered_rows->0;
            assert(shown =~= spec_rows(spec_cells(*self)));
            assert(room@ =~= spec_visualize(*self));
        }
        room
    }
}


} // verus!
