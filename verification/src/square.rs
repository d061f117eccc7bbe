//! Coordinate model: colors, squares and the straight/diagonal geometry
//! between them.

use vstd::prelude::*;

verus! {

/// One of the two sides of a chess game.
#[derive(Eq, PartialEq, Copy, Clone, Debug, Hash, Structural)]
pub enum Color {
    White,
    Black,
}

impl Color {
    /// The other side: White for Black and Black for White.
    pub open spec fn spec_opposite(self) -> Color {
        match self {
            Color::White => Color::Black,
            Color::Black => Color::White,
        }
    }

    pub fn get_opposite(&self) -> (r: Color)
        ensures
            r == self.spec_opposite(),
    {
        match self {
            Color::White => Color::Black,
            Color::Black => Color::White,
        }
    }
}

/// A board coordinate. Files and ranks run from 1 to 8 on the board;
/// off-board coordinates are representable but are never stored as a
/// piece location.
#[derive(Eq, PartialEq, Copy, Clone, Debug, Hash, Structural)]
pub struct Square {
    pub file_number: u8,
    pub rank_number: u8,
}

impl Square {
    /// Both coordinates lie on the board.
    pub open spec fn valid(self) -> bool {
        1 <= self.file_number <= 8 && 1 <= self.rank_number <= 8
    }

    /// The 0-to-63 index of a valid square, in rank-major order.
    pub open spec fn idx(self) -> int {
        (self.rank_number - 1) * 8 + (self.file_number - 1)
    }

    pub fn new(file_number: u8, rank_number: u8) -> (r: Self)
        ensures
            r == (Square { file_number, rank_number }),
    {
        Self { file_number, rank_number }
    }

    pub fn new_if_valid(file_number: u8, rank_number: u8) -> (r: Option<Self>)
        ensures
            r == if (Square { file_number, rank_number }).valid() {
                Some(Square { file_number, rank_number })
            } else {
                None::<Square>
            },
    {
        let square = Self::new(file_number, rank_number);

        if !square.is_valid() {
            return None;
        }

        Some(square)
    }

    /// The file as its letter code: 1 is 'A', 8 is 'H'.
    pub fn get_file_as_letter(&self) -> (r: char)
        requires
            self.valid(),
        ensures
            r as u8 == 64 + self.file_number,
    {
        (64 + self.file_number) as char
    }

    /// A square is light exactly when its file and rank have different
    /// parity.
    pub fn is_light(&self) -> (r: bool)
        ensures
            r == ((self.file_number + self.rank_number) % 2 == 1),
    {
        self.file_number % 2 != self.rank_number % 2
    }

    pub fn is_valid(&self) -> (r: bool)
        ensures
            r == self.valid(),
    {
        self.file_number >= 1 && self.file_number <= 8 && self.rank_number >= 1
            && self.rank_number <= 8
    }

    pub fn get_unique_index(&self) -> (r: u8)
        requires
            self.valid(),
        ensures
            r == self.idx(),
            r < 64,
    {
        (self.rank_number - 1) * 8 + (self.file_number - 1)
    }
}

/// The square one (file_relative, rank_relative) step away, or an
/// off-board marker when the step leaves the board.
pub open spec fn spec_step(s: Square, file_relative: i8, rank_relative: i8) -> Square {
    if 1 <= s.file_number + file_relative <= 8 && 1 <= s.rank_number + rank_relative <= 8 {
        Square {
            file_number: (s.file_number + file_relative) as u8,
            rank_number: (s.rank_number + rank_relative) as u8,
        }
    } else {
        Square { file_number: 0, rank_number: 0 }
    }
}

/// The coordinate offset of k steps of unit size d (d in {-1, 0, 1}).
pub open spec fn off(k: int, d: int) -> int {
    if d == 1 {
        k
    } else if d == -1 {
        -k
    } else {
        0
    }
}

/// The unit direction from a toward b: -1, 0 or 1.
pub open spec fn dir(a: int, b: int) -> int {
    if a < b {
        1
    } else if b < a {
        -1
    } else {
        0
    }
}

pub open spec fn abs_diff(a: int, b: int) -> int {
    if a < b {
        b - a
    } else {
        a - b
    }
}

/// The i-th element of r extends the walk from start by one
/// (file_relative, rank_relative) step and stays on the board.
pub open spec fn ray_link(r: Seq<Square>, start: Square, df: i8, dr: i8, i: int) -> bool {
    r[i] == spec_step(if i == 0 { start } else { r[i - 1] }, df, dr) && r[i].valid()
}

/// r is a walk of valid squares from start, each one step further.
pub open spec fn ray_prefix(r: Seq<Square>, start: Square, df: i8, dr: i8) -> bool {
    forall|i: int| 0 <= i < r.len() ==> #[trigger] ray_link(r, start, df, dr, i)
}

/// r is the maximal walk from start: one more step would leave the board.
pub open spec fn ray_chain(r: Seq<Square>, start: Square, df: i8, dr: i8) -> bool {
    &&& ray_prefix(r, start, df, dr)
    &&& !spec_step(if r.len() == 0 {
        start
    } else {
        r[r.len() - 1]
    }, df, dr).valid()
}

/// t lies somewhere on the open ray from `from` in unit direction (df, dr).
pub open spec fn on_ray(from: Square, t: Square, df: int, dr: int) -> bool {
    exists|k: int|
        1 <= k && t.file_number == from.file_number + #[trigger] off(k, df) && t.rank_number
            == from.rank_number + off(k, dr)
}

/// Each element of a walk sits exactly i + 1 steps from its start.
pub proof fn lemma_ray_coords(r: Seq<Square>, start: Square, df: i8, dr: i8, i: int)
    requires
        ray_prefix(r, start, df, dr),
        -1 <= df <= 1,
        -1 <= dr <= 1,
        0 <= i < r.len(),
    ensures
        r[i].file_number == start.file_number + off(i + 1, df as int),
        r[i].rank_number == start.rank_number + off(i + 1, dr as int),
    decreases i,
{
    assert(ray_link(r, start, df, dr, i));
    if i > 0 {
        lemma_ray_coords(r, start, df, dr, i - 1);
    }
}

/// Every on-board point of the ray is reached by the maximal walk.
pub proof fn lemma_ray_hit(r: Seq<Square>, start: Square, df: i8, dr: i8, k: int)
    requires
        ray_chain(r, start, df, dr),
        start.valid(),
        -1 <= df <= 1,
        -1 <= dr <= 1,
        !(df == 0 && dr == 0),
        1 <= k,
        1 <= start.file_number + off(k, df as int) <= 8,
        1 <= start.rank_number + off(k, dr as int) <= 8,
    ensures
        k <= r.len(),
        r[k - 1] == (Square {
            file_number: (start.file_number + off(k, df as int)) as u8,
            rank_number: (start.rank_number + off(k, dr as int)) as u8,
        }),
    decreases k,
{
    if k == 1 {
        if r.len() == 0 {
        } else {
            assert(ray_link(r, start, df, dr, 0));
        }
    } else {
        lemma_ray_hit(r, start, df, dr, k - 1);
        assert(ray_link(r, start, df, dr, k - 1));
        lemma_ray_coords(r, start, df, dr, k - 2);
    }
}

/// A maximal walk holds exactly the on-board squares of its open ray.
pub proof fn lemma_ray_membership(r: Seq<Square>, start: Square, df: i8, dr: i8)
    requires
        ray_chain(r, start, df, dr),
        start.valid(),
        -1 <= df <= 1,
        -1 <= dr <= 1,
        !(df == 0 && dr == 0),
    ensures
        forall|t: Square|
            #[trigger] r.contains(t) <==> t.valid() && on_ray(start, t, df as int, dr as int),
{
    assert forall|t: Square| #[trigger] r.contains(t) implies t.valid() && on_ray(
        start,
        t,
        df as int,
        dr as int,
    ) by {
        let i = choose|i: int| 0 <= i < r.len() && r[i] == t;
        assert(ray_link(r, start, df, dr, i));
        lemma_ray_coords(r, start, df, dr, i);
        assert(t.file_number == start.file_number + off(i + 1, df as int));
    }
    assert forall|t: Square| t.valid() && on_ray(start, t, df as int, dr as int) implies #[trigger] r.contains(
        t,
    ) by {
        let k = choose|k: int|
            1 <= k && t.file_number == start.file_number + #[trigger] off(k, df as int)
                && t.rank_number == start.rank_number + off(k, dr as int);
        lemma_ray_hit(r, start, df, dr, k);
        assert(r[k - 1] == t);
    }
}

impl Square {
    /// Arithmetic offset from this square. The result may be off the
    /// board, which callers must check with `is_valid`.
    pub fn get_relative(&self, file_relative: i8, rank_relative: i8) -> (r: Self)
        ensures
            r == spec_step(*self, file_relative, rank_relative),
    {
        let file = self.file_number as i16 + file_relative as i16;
        let rank = self.rank_number as i16 + rank_relative as i16;

        if 1 <= file && file <= 8 && 1 <= rank && rank <= 8 {
            Self { file_number: file as u8, rank_number: rank as u8 }
        } else {
            Self { file_number: 0, rank_number: 0 }
        }
    }

    /// All squares reached by repeating the (file_relative, rank_relative)
    /// step from this square, stopping before the first off-board result.
    /// Used to enumerate the sliding pieces' rays.
    pub fn get_relatives_until_invalid(&self, file_relative: i8, rank_relative: i8) -> (r: Vec<
        Square,
    >)
        requires
            self.valid(),
            !(file_relative == 0 && rank_relative == 0),
        ensures
            ray_chain(r@, *self, file_relative, rank_relative),
    {
        let mut relatives: Vec<Square> = Vec::new();
        let mut current: Square = *self;

        loop
            invariant
                self.valid(),
                !(file_relative == 0 && rank_relative == 0),
                current.valid(),
                current == if relatives@.len() == 0 {
                    *self
                } else {
                    relatives@[relatives@.len() - 1]
                },
                ray_prefix(relatives@, *self, file_relative, rank_relative),
            ensures
                ray_chain(relatives@, *self, file_relative, rank_relative),
            decreases ray_fuel(current, file_relative, rank_relative),
        {
            let next = current.get_relative(file_relative, rank_relative);

            if !next.is_valid() {
                break ;
            }

            proof {
                lemma_ray_fuel_step(current, file_relative, rank_relative);
                assert(ray_link(
                    relatives@.push(next),
                    *self,
                    file_relative,
                    rank_relative,
                    relatives@.len() as int,
                ));
                assert(forall|i: int|
                    0 <= i < relatives@.len() ==> ray_link(
                        relatives@,
                        *self,
                        file_relative,
                        rank_relative,
                        i,
                    ) ==> #[trigger] ray_link(
                        relatives@.push(next),
                        *self,
                        file_relative,
                        rank_relative,
                        i,
                    ));
            }
            relatives.push(next);
            current = next;
        }

        relatives
    }
}

/// a and b share a file, share a rank, or sit on a common diagonal.
pub open spec fn aligned(a: Square, b: Square) -> bool {
    ||| a.file_number == b.file_number
    ||| a.rank_number == b.rank_number
    ||| abs_diff(a.file_number as int, b.file_number as int) == abs_diff(
        a.rank_number as int,
        b.rank_number as int,
    )
}

/// The number of king steps from a to b.
pub open spec fn cheb(a: Square, b: Square) -> int {
    let f = abs_diff(a.file_number as int, b.file_number as int);
    let r = abs_diff(a.rank_number as int, b.rank_number as int);
    if f < r {
        r
    } else {
        f
    }
}

/// The square k steps along the line from a toward b.
pub open spec fn seg_point(a: Square, b: Square, k: int) -> Square {
    Square {
        file_number: (a.file_number + off(
            k,
            dir(a.file_number as int, b.file_number as int),
        )) as u8,
        rank_number: (a.rank_number + off(
            k,
            dir(a.rank_number as int, b.rank_number as int),
        )) as u8,
    }
}

/// The open segment strictly between a and b, ordered from a toward b.
pub open spec fn seg_seq(a: Square, b: Square) -> Seq<Square> {
    Seq::new(
        if a == b {
            0
        } else {
            (cheb(a, b) - 1) as nat
        },
        |i: int| seg_point(a, b, i + 1),
    )
}

impl Square {
    /// The squares strictly between this square and `other`, ordered from
    /// here toward `other`; None when the two squares are not on a common
    /// rank, file or diagonal.
    pub fn find_path_to(&self, other: &Self) -> (r: Option<Vec<Square>>)
        requires
            self.valid(),
            other.valid(),
        ensures
            r is Some <==> aligned(*self, *other),
            r matches Some(path) ==> path@ == seg_seq(*self, *other),
    {
        if self.file_number == other.file_number && self.rank_number == other.rank_number {
            let path: Vec<Square> = Vec::new();
            assert(path@ =~= seg_seq(*self, *other));
            return Some(path);
        }

        let fd: u8 = if self.file_number < other.file_number {
            other.file_number - self.file_number
        } else {
            self.file_number - other.file_number
        };
        let rd: u8 = if self.rank_number < other.rank_number {
            other.rank_number - self.rank_number
        } else {
            self.rank_number - other.rank_number
        };

        if fd != 0 && rd != 0 && fd != rd {
            return None;
        }

        let df: i8 = if self.file_number < other.file_number {
            1
        } else if other.file_number < self.file_number {
            -1
        } else {
            0
        };
        let dr: i8 = if self.rank_number < other.rank_number {
            1
        } else if other.rank_number < self.rank_number {
            -1
        } else {
            0
        };

        let mut path: Vec<Square> = Vec::new();
        let mut current = self.get_relative(df, dr);
        let ghost mut k: int = 1;

        while !(current.file_number == other.file_number && current.rank_number
            == other.rank_number)
            invariant
                self.valid(),
                other.valid(),
                aligned(*self, *other),
                *self != *other,
                df as int == dir(self.file_number as int, other.file_number as int),
                dr as int == dir(self.rank_number as int, other.rank_number as int),
                1 <= k <= cheb(*self, *other),
                current == seg_point(*self, *other, k),
                current.valid(),
                path@ == Seq::new((k - 1) as nat, |i: int| seg_point(*self, *other, i + 1)),
            decreases cheb(*self, *other) - k,
        {
            path.push(current);
            current = current.get_relative(df, dr);
            proof {
                k = k + 1;
                assert(path@ =~= Seq::new((k - 1) as nat, |i: int| seg_point(*self, *other, i + 1)));
            }
        }

        assert(current == *other);
        assert(k == cheb(*self, *other));
        assert(path@ =~= seg_seq(*self, *other));
        Some(path)
    }
}

/// A bound on how many steps of a walk remain before the board edge.
pub open spec fn ray_fuel(s: Square, df: i8, dr: i8) -> int {
    if df > 0 {
        8 - s.file_number
    } else if df < 0 {
        s.file_number - 1
    } else if dr > 0 {
        8 - s.rank_number
    } else {
        s.rank_number - 1
    }
}

/// One on-board step spends one unit of fuel.
proof fn lemma_ray_fuel_step(s: Square, df: i8, dr: i8)
    requires
        s.valid(),
        !(df == 0 && dr == 0),
        spec_step(s, df, dr).valid(),
    ensures
        0 <= ray_fuel(spec_step(s, df, dr), df, dr) < ray_fuel(s, df, dr),
{
}

} // verus!
