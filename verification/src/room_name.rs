//! Structured room coordinate identifiers.
//!
//! A room name such as `E0N0` or `W12S3` names one room of the world grid.
//! The east/west half encodes the x coordinate and the north/south half the
//! y coordinate; `x_coord` 0 stands for `E0`, positive values for `E(x)`,
//! -1 for `W0` and other negative values for `W(-x - 1)`.  `y_coord` works
//! the same way with `N` for zero and positive values and `S` for negative
//! ones.

use vstd::prelude::*;
use vstd::string::*;

use crate::dec::{dec_digits, digit_char, push_dec};

verus! {

/// One room's coordinates on the world grid.
#[derive(Clone, Copy, Debug, PartialEq, Eq, Hash, Structural)]
pub struct RoomName {
    /// 0 is `E0`, x > 0 is `E(x)`, -1 is `W0`, x < -1 is `W(-x - 1)`.
    pub x_coord: i32,
    /// 0 is `N0`, y > 0 is `N(y)`, -1 is `S0`, y < -1 is `S(-y - 1)`.
    pub y_coord: i32,
}

/// Whether `c` is one of the characters `0` to `9`.
pub open spec fn is_dec_digit(c: char) -> bool {
    48 <= c as u32 <= 57
}

/// The numeric value of a decimal digit character.
pub open spec fn digit_of(c: char) -> nat {
    (c as u32 - 48) as nat
}

/// The value of a run of decimal digit characters, most significant first.
pub open spec fn digits_val(s: Seq<char>) -> nat
    decreases s.len(),
{
    if s.len() == 0 {
        0
    } else {
        digits_val(s.drop_last()) * 10 + digit_of(s.last())
    }
}

/// The east/west half of a rendered room name.
pub open spec fn ew_part(x: int) -> Seq<char> {
    if x >= 0 {
        seq!['E'] + dec_digits(x as nat)
    } else {
        seq!['W'] + dec_digits((-x - 1) as nat)
    }
}

/// The north/south half of a rendered room name.
pub open spec fn ns_part(y: int) -> Seq<char> {
    if y >= 0 {
        seq!['N'] + dec_digits(y as nat)
    } else {
        seq!['S'] + dec_digits((-y - 1) as nat)
    }
}

/// The east/west direction named by `c`: `Some(true)` for east.
pub open spec fn ew_dir(c: char) -> Option<bool> {
    if c == 'E' || c == 'e' {
        Some(true)
    } else if c == 'W' || c == 'w' {
        Some(false)
    } else {
        None
    }
}

/// The north/south direction named by `c`: `Some(true)` for north.
pub open spec fn ns_dir(c: char) -> Option<bool> {
    if c == 'N' || c == 'n' {
        Some(true)
    } else if c == 'S' || c == 's' {
        Some(false)
    } else {
        None
    }
}

/// The first position at or after `i` that does not hold a decimal digit.
pub open spec fn digits_end(s: Seq<char>, i: int) -> int
    recommends
        0 <= i <= s.len(),
    decreases s.len() - i,
{
    if i < 0 || i >= s.len() {
        i
    } else if is_dec_digit(s[i]) {
        digits_end(s, i + 1)
    } else {
        i
    }
}

/// The coordinates named by the given positions and magnitudes.
pub open spec fn from_parts(east: bool, north: bool, xv: int, yv: int) -> RoomName {
    RoomName {
        x_coord: (if east {
            xv
        } else {
            -xv - 1
        }) as i32,
        y_coord: (if north {
            yv
        } else {
            -yv - 1
        }) as i32,
    }
}

/// What a character sequence parses to as a room name: `(E|W)[0-9]+(N|S)[0-9]+`,
/// case-insensitive, with each magnitude small enough for a nameable room.
pub open spec fn spec_parse_room_name(s: Seq<char>) -> Option<RoomName> {
    if s.len() < 1 {
        None
    } else {
        match ew_dir(s[0]) {
            None => None,
            Some(east) => {
                let j = digits_end(s, 1);
                if j <= 1 || j >= s.len() {
                    None
                } else {
                    match ns_dir(s[j]) {
                        None => None,
                        Some(north) => {
                            let k = digits_end(s, j + 1);
                            if k <= j + 1 || k < s.len() {
                                None
                            } else {
                                let xv = digits_val(s.subrange(1, j));
                                let yv = digits_val(s.subrange(j + 1, s.len() as int));
                                if xv > i32::MAX as nat || yv > i32::MAX as nat {
                                    None
                                } else {
                                    let r = from_parts(east, north, xv as int, yv as int);
                                    if r.wf() {
                                        Some(r)
                                    } else {
                                        None
                                    }
                                }
                            }
                        },
                    }
                }
            },
        }
    }
}

impl RoomName {
    /// The rendered form of this room name, e.g. `W1N1`.
    pub open spec fn spec_str(self) -> Seq<char> {
        ew_part(self.x_coord as int) + ns_part(self.y_coord as int)
    }

    /// A nameable room: neither coordinate is `i32::MIN`.  `W2147483647`
    /// would need `x_coord == i32::MIN`, whose west magnitude the protocol
    /// libraries compute by a negation that cannot be represented; the
    /// parser refuses such names and `offset` never produces them.
    pub open spec fn wf(self) -> bool {
        self.x_coord > i32::MIN && self.y_coord > i32::MIN
    }
}

impl RoomName {
    /// Builds the coordinates for the given quadrant positions.  A west or
    /// south magnitude of `i32::MAX` would need the unrepresentable
    /// coordinate `i32::MIN`, so it is left out.
    pub fn from_pos(east: bool, north: bool, x_pos: i32, y_pos: i32) -> (r: RoomName)
        requires
            x_pos >= 0,
            y_pos >= 0,
            !east ==> x_pos < i32::MAX,
            !north ==> y_pos < i32::MAX,
        ensures
            r == from_parts(east, north, x_pos as int, y_pos as int),
            r.wf(),
    {
        RoomName {
            x_coord: if east {
                x_pos
            } else {
                -x_pos - 1
            },
            y_coord: if north {
                y_pos
            } else {
                -y_pos - 1
            },
        }
    }

    /// Renders this room name, e.g. `W1N1`.
    pub fn display_string(&self) -> (r: String)
        ensures
            r@ == self.spec_str(),
    {
        let mut s = String::new();
        if self.x_coord >= 0 {
            proof {
                reveal_strlit("E");
            }
            s.append("E");
            assert(s@ =~= seq!['E']);
            push_dec(&mut s, self.x_coord as u32);
        } else {
            proof {
                reveal_strlit("W");
            }
            s.append("W");
            assert(s@ =~= seq!['W']);
            let mag: i64 = -(self.x_coord as i64) - 1;
            push_dec(&mut s, mag as u32);
        }
        assert(s@ == ew_part(self.x_coord as int));
        if self.y_coord >= 0 {
            proof {
                reveal_strlit("N");
            }
            s.append("N");
            push_dec(&mut s, self.y_coord as u32);
            assert(s@ =~= ew_part(self.x_coord as int) + ns_part(self.y_coord as int));
        } else {
            proof {
                reveal_strlit("S");
            }
            s.append("S");
            let mag: i64 = -(self.y_coord as i64) - 1;
            push_dec(&mut s, mag as u32);
            assert(s@ =~= ew_part(self.x_coord as int) + ns_part(self.y_coord as int));
        }
        s
    }

    /// The neighbouring room name offset by `(dx, dy)`, or `None` when the
    /// coordinates would leave the nameable grid.
    pub fn offset(&self, dx: i32, dy: i32) -> (r: Option<RoomName>)
        ensures
            match r {
                Some(n) => n.x_coord == self.x_coord + dx && n.y_coord == self.y_coord + dy
                    && n.wf(),
                None => !(i32::MIN < self.x_coord + dx <= i32::MAX && i32::MIN < self.y_coord
                    + dy <= i32::MAX),
            },
    {
        match (self.x_coord.checked_add(dx), self.y_coord.checked_add(dy)) {
            (Some(x), Some(y)) => {
                if x > i32::MIN && y > i32::MIN {
                    Some(RoomName { x_coord: x, y_coord: y })
                } else {
                    None
                }
            },
            _ => None,
        }
    }
}

/// The east/west direction named by `c`, if any.
fn ew_of(c: char) -> (r: Option<bool>)
    ensures
        r == ew_dir(c),
{
    if c == 'E' || c == 'e' {
        Some(true)
    } else if c == 'W' || c == 'w' {
        Some(false)
    } else {
        None
    }
}

/// The north/south direction named by `c`, if any.
fn ns_of(c: char) -> (r: Option<bool>)
    ensures
        r == ns_dir(c),
{
    if c == 'N' || c == 'n' {
        Some(true)
    } else if c == 's' || c == 'S' {
        Some(false)
    } else {
        None
    }
}

/// Whether `c` is a decimal digit, matching `is_dec_digit`.
fn digit_test(c: char) -> (r: bool)
    ensures
        r == is_dec_digit(c),
{
    let v = c as u32;
    48 <= v && v <= 57
}

proof fn lemma_digits_end_at(s: Seq<char>, i: int, j: int)
    requires
        0 <= i <= j <= s.len(),
        forall|k: int| i <= k < j ==> is_dec_digit(s[k]),
        j == s.len() || !is_dec_digit(s[j]),
    ensures
        digits_end(s, i) == j,
    decreases j - i,
{
    if i < j {
        lemma_digits_end_at(s, i + 1, j);
    }
}

proof fn lemma_digits_val_extend(s: Seq<char>, i: int, j: int)
    requires
        0 <= i <= j < s.len(),
    ensures
        digits_val(s.subrange(i, j + 1)) == digits_val(s.subrange(i, j)) * 10 + digit_of(s[j]),
{
    assert(s.subrange(i, j + 1).drop_last() =~= s.subrange(i, j));
    assert(s.subrange(i, j + 1).last() == s[j]);
}


/// A decimal rendering is nonempty, holds only digits, and reads back to
/// its value.
pub proof fn lemma_dec_digits_props(n: nat)
    ensures
        dec_digits(n).len() >= 1,
        forall|i: int| 0 <= i < dec_digits(n).len() ==> is_dec_digit(#[trigger] dec_digits(n)[i]),
        digits_val(dec_digits(n)) == n,
    decreases n,
{
    if n < 10 {
        let t = dec_digits(n);
        assert(t =~= seq![digit_char(n)]);
        assert(digits_val(t) == digits_val(t.drop_last()) * 10 + digit_of(t.last()));
        assert(t.drop_last() =~= Seq::<char>::empty());
        assert(digits_val(Seq::<char>::empty()) == 0);
        assert(digit_of(digit_char(n)) == n);
    } else {
        lemma_dec_digits_props(n / 10);
        let t = dec_digits(n);
        assert(t == dec_digits(n / 10).push(digit_char(n % 10)));
        assert(t.drop_last() =~= dec_digits(n / 10));
        assert(digits_val(t) == (n / 10) * 10 + (n % 10));
        assert forall|i: int| 0 <= i < t.len() implies is_dec_digit(#[trigger] t[i]) by {
            if i < t.len() - 1 {
                assert(t[i] == dec_digits(n / 10)[i]);
            }
        }
    }
}

/// Law: rendering a nameable room name and parsing the rendering gives the
/// name back.
pub proof fn lemma_room_name_round_trip(r: RoomName)
    requires
        r.wf(),
    ensures
        spec_parse_room_name(r.spec_str()) == Some(r),
{
    let s = r.spec_str();
    let xi = r.x_coord as int;
    let yi = r.y_coord as int;
    let mx: nat = if xi >= 0 {
        xi as nat
    } else {
        (-xi - 1) as nat
    };
    let my: nat = if yi >= 0 {
        yi as nat
    } else {
        (-yi - 1) as nat
    };
    let d1: char = if xi >= 0 {
        'E'
    } else {
        'W'
    };
    let d2: char = if yi >= 0 {
        'N'
    } else {
        'S'
    };
    let dec1 = dec_digits(mx);
    let dec2 = dec_digits(my);
    lemma_dec_digits_props(mx);
    lemma_dec_digits_props(my);
    assert(s =~= seq![d1] + dec1 + seq![d2] + dec2);
    let j = 1 + dec1.len() as int;
    let n = s.len() as int;
    assert(s[0] == d1);
    assert(s[j] == d2);
    assert forall|k: int| 1 <= k < j implies is_dec_digit(s[k]) by {
        assert(s[k] == dec1[k - 1]);
    }
    lemma_digits_end_at(s, 1, j);
    assert forall|k: int| j + 1 <= k < n implies is_dec_digit(s[k]) by {
        assert(s[k] == dec2[k - j - 1]);
    }
    lemma_digits_end_at(s, j + 1, n);
    assert(s.subrange(1, j) =~= dec1);
    assert(s.subrange(j + 1, n) =~= dec2);
    assert(from_parts(xi >= 0, yi >= 0, mx as int, my as int) == r);
}

/// Scans the digit run beginning at `from`, returning its end and its value
/// capped detection: `None` when the run's value exceeds `i32::MAX`.
fn scan_digits(s: &str, from: usize, len: usize) -> (r: (usize, Option<u32>))
    requires
        len == s@.len(),
        from <= len,
    ensures
        r.0 == digits_end(s@, from as int),
        from <= r.0 <= len,
        match r.1 {
            Some(v) => digits_val(s@.subrange(from as int, r.0 as int)) == v as nat && v as nat
                <= i32::MAX as nat,
            None => digits_val(s@.subrange(from as int, r.0 as int)) > i32::MAX as nat,
        },
{
    let mut j: usize = from;
    let mut val: u64 = 0;
    let mut fits: bool = true;
    proof {
        assert(s@.subrange(from as int, from as int) =~= Seq::<char>::empty());
    }
    loop
        invariant
            len == s@.len(),
            from <= j <= len,
            forall|k: int| from <= k < j ==> is_dec_digit(s@[k]),
            fits ==> digits_val(s@.subrange(from as int, j as int)) == val as nat && val as nat
                <= i32::MAX as nat,
            !fits ==> digits_val(s@.subrange(from as int, j as int)) > i32::MAX as nat,
        ensures
            from <= j <= len,
            forall|k: int| from <= k < j ==> is_dec_digit(s@[k]),
            j == len || !is_dec_digit(s@[j as int]),
            fits ==> digits_val(s@.subrange(from as int, j as int)) == val as nat && val as nat
                <= i32::MAX as nat,
            !fits ==> digits_val(s@.subrange(from as int, j as int)) > i32::MAX as nat,
        decreases len - j,
    {
        if j >= len {
            break ;
        }
        let c = s.get_char(j);
        if !digit_test(c) {
            break ;
        }
        let d: u32 = c as u32 - 48;
        proof {
            lemma_digits_val_extend(s@, from as int, j as int);
        }
        if fits {
            let next: u64 = val * 10 + d as u64;
            if next > i32::MAX as u64 {
                fits = false;
            } else {
                val = next;
            }
        } else {
            proof {
                let prev = digits_val(s@.subrange(from as int, j as int));
                let dj = digit_of(s@[j as int]);
                assert(digits_val(s@.subrange(from as int, j + 1)) == prev * 10 + dj);
                assert(prev * 10 >= prev) by (nonlinear_arith)
                    requires
                        prev >= 0,
                ;
            }
        }
        j = j + 1;
    }
    proof {
        lemma_digits_end_at(s@, from as int, j as int);
    }
    if fits {
        (j, Some(val as u32))
    } else {
        (j, None)
    }
}

impl RoomName {
    /// Parses a rendered room name such as `W1N1`.
    ///
    /// Accepts `(E|W)[0-9]+(N|S)[0-9]+`, case-insensitive, with each
    /// magnitude at most `i32::MAX`; returns `None` for anything else.
    pub fn parse(s: &str) -> (r: Option<RoomName>)
        ensures
            r == spec_parse_room_name(s@),
            (r matches Some(n) ==> n.wf()),
    {
        let len = s.unicode_len();
        if len < 1 {
            return None;
        }
        let east = match ew_of(s.get_char(0)) {
            Some(e) => e,
            None => {
                return None;
            },
        };
        let (j, xv) = scan_digits(s, 1, len);
        if j <= 1 || j >= len {
            return None;
        }
        let north = match ns_of(s.get_char(j)) {
            Some(n) => n,
            None => {
                return None;
            },
        };
        let (k, yv) = scan_digits(s, j + 1, len);
        if k <= j + 1 || k < len {
            return None;
        }
        match (xv, yv) {
            (Some(x), Some(y)) => {
                if (east || x < i32::MAX as u32) && (north || y < i32::MAX as u32) {
                    Some(RoomName::from_pos(east, north, x as i32, y as i32))
                } else {
                    None
                }
            },
            _ => None,
        }
    }
}

} // verus!
