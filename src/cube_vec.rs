use vstd::prelude::*;

use vstd::arithmetic::div_mod::{lemma_div_multiples_vanish, lemma_fundamental_div_mod};

use crate::cube_dir::CubeDir;
use crate::element::{attr_i32, int_attr_error, Element};
use crate::error::Error;
use crate::text::{format_i32, int_text};

verus! {

/// Whether `x` fits in an `i32`.
pub open spec fn fits(x: int) -> bool {
    i32::MIN <= x <= i32::MAX
}

/// A vector as its three components.
pub type Triple = (int, int, int);

/// Component `i` (taken modulo three) of `v`.
pub open spec fn comp(v: Triple, i: int) -> int {
    let k = i % 3;
    if k == 0 {
        v.0
    } else if k == 1 {
        v.1
    } else {
        v.2
    }
}

/// The components of `v`, negated.
pub open spec fn neg(v: Triple) -> Triple {
    (-v.0, -v.1, -v.2)
}

/// The component-wise sum of `a` and `b`.
pub open spec fn plus(a: Triple, b: Triple) -> Triple {
    (a.0 + b.0, a.1 + b.1, a.2 + b.2)
}

/// The component-wise difference of `a` and `b`.
pub open spec fn minus(a: Triple, b: Triple) -> Triple {
    (a.0 - b.0, a.1 - b.1, a.2 - b.2)
}

/// `v` scaled by `k`.
pub open spec fn scale(v: Triple, k: int) -> Triple {
    (v.0 * k, v.1 * k, v.2 * k)
}

/// Whether the three components of `v` sum to zero.
pub open spec fn is_cube(v: Triple) -> bool {
    v.0 + v.1 + v.2 == 0
}

/// `v` rotated by `n` turns of 60 degrees clockwise: the components read
/// cyclically from offset `n mod 3`, negated when `n` is odd.
pub open spec fn rotate(v: Triple, n: int) -> Triple {
    let w = (comp(v, n), comp(v, n + 1), comp(v, n + 2));
    if n % 2 == 0 {
        w
    } else {
        neg(w)
    }
}

/// The unit vector of a direction.
pub open spec fn unit(d: CubeDir) -> Triple {
    match d {
        CubeDir::Right => (1, 0, -1),
        CubeDir::DownRight => (0, 1, -1),
        CubeDir::DownLeft => (-1, 1, 0),
        CubeDir::Left => (-1, 0, 1),
        CubeDir::UpLeft => (0, -1, 1),
        CubeDir::UpRight => (1, -1, 0),
    }
}

/// The cube vector of offset-grid coordinates `(x, y)`.
pub open spec fn offset_to_cube(x: int, y: int) -> Triple {
    let r = y - 2;
    let q = x - 1 - (if r < 0 { r } else { 0 });
    (r, q, -r - q)
}

/// Whether every component of `v` fits in an `i32`.
pub open spec fn fits_all(v: Triple) -> bool {
    fits(v.0) && fits(v.1) && fits(v.2)
}

/// A cube coordinate vector (or position). Vectors that stand for positions
/// or directions have components that sum to zero (`is_cube`); the type itself
/// holds any three components, as read from the wire.
#[derive(Debug, Clone, Copy, PartialEq, Eq, Hash, Structural)]
pub struct CubeVec {
    r: i32,
    q: i32,
    s: i32,
}

impl View for CubeVec {
    type V = Triple;

    closed spec fn view(&self) -> Triple {
        (self.r as int, self.q as int, self.s as int)
    }
}

impl Default for CubeVec {
    fn default() -> (r: Self)
        ensures
            r@ == (0int, 0int, 0int),
    {
        CubeVec::zero()
    }
}

impl CubeVec {
    /// The coordinate origin or zero direction vector, i.e. (0, 0, 0).
    pub fn zero() -> (r: Self)
        ensures
            r@ == (0int, 0int, 0int),
    {
        CubeVec { r: 0, q: 0, s: 0 }
    }

    /// Creates a new vector from the given cube components.
    pub fn new(r: i32, q: i32, s: i32) -> (v: Self)
        ensures
            v@ == (r as int, q as int, s as int),
    {
        CubeVec { r, q, s }
    }

    /// Creates a new vector from the given r/q components.
    pub fn rq(r: i32, q: i32) -> (v: Self)
        requires
            fits(-r - q),
        ensures
            v@ == (r as int, q as int, -r - q),
            is_cube(v@),
    {
        CubeVec { r, q, s: (-(q as i64) - r as i64) as i32 }
    }

    /// The squared length of this vector.
    pub fn squared_length(self) -> (l: i32)
        requires
            self@.0 * self@.0 + self@.1 * self@.1 + self@.2 * self@.2 <= i32::MAX,
        ensures
            l == self@.0 * self@.0 + self@.1 * self@.1 + self@.2 * self@.2,
    {
        let r = self.r as i64;
        let q = self.q as i64;
        let s = self.s as i64;
        assert(0 <= r * r <= i32::MAX) by (nonlinear_arith)
            requires
                r * r + q * q + s * s <= i32::MAX,
        ;
        assert(0 <= q * q <= i32::MAX) by (nonlinear_arith)
            requires
                r * r + q * q + s * s <= i32::MAX,
        ;
        assert(0 <= s * s <= i32::MAX) by (nonlinear_arith)
            requires
                r * r + q * q + s * s <= i32::MAX,
        ;
        (r * r + q * q + s * s) as i32
    }

    /// The first component of this vector.
    pub fn r(self) -> (c: i32)
        ensures
            c == self@.0,
    {
        self.r
    }

    /// The second component of this vector.
    pub fn q(self) -> (c: i32)
        ensures
            c == self@.1,
    {
        self.q
    }

    /// The third component of this vector.
    pub fn s(self) -> (c: i32)
        ensures
            c == self@.2,
    {
        self.s
    }

    /// The three components, in the order r, q, s.
    pub fn components(self) -> (c: [i32; 3])
        ensures
            c@[0] == self@.0,
            c@[1] == self@.1,
            c@[2] == self@.2,
    {
        [self.r, self.q, self.s]
    }

    /// Rotates by vector by the given amount of turns to the right.
    pub fn rotated_by(self, turns: i32) -> (v: CubeVec)
        requires
            (turns as int) % 2 == 1 ==> fits_all(neg(self@)),
        ensures
            v@ == rotate(self@, turns as int),
    {
        let c = self.components();
        let m: i32 = turns % 3;
        let k: usize = if m < 0 { (m + 3) as usize } else { m as usize };
        assert(k as int == (turns as int) % 3);
        let v = CubeVec::new(c[k], c[(k + 1) % 3], c[(k + 2) % 3]);
        if turns % 2 == 0 {
            assert((turns as int) % 2 == 0);
            v
        } else {
            assert((turns as int) % 2 == 1);
            v.negated()
        }
    }

    /// The component-wise negation of this vector.
    pub fn negated(self) -> (v: CubeVec)
        requires
            fits_all(neg(self@)),
        ensures
            v@ == neg(self@),
    {
        CubeVec { r: -self.r, q: -self.q, s: -self.s }
    }
    /// The unit vector of a direction.
    pub fn from_dir(d: CubeDir) -> (v: CubeVec)
        ensures
            v@ == unit(d),
            is_cube(v@),
    {
        match d {
            CubeDir::Right => CubeVec::rq(1, 0),
            CubeDir::DownRight => CubeVec::rq(0, 1),
            CubeDir::DownLeft => CubeVec::rq(-1, 1),
            CubeDir::Left => CubeVec::rq(-1, 0),
            CubeDir::UpLeft => CubeVec::rq(0, -1),
            CubeDir::UpRight => CubeVec::rq(1, -1),
        }
    }

    /// Converts offset-grid coordinates `(x, y)` to cube coordinates.
    pub fn from_offset(x: i32, y: i32) -> (v: CubeVec)
        requires
            fits_all(offset_to_cube(x as int, y as int)),
        ensures
            v@ == offset_to_cube(x as int, y as int),
            is_cube(v@),
    {
        let r = (y as i64 - 2) as i32;
        let m: i64 = if r < 0 { r as i64 } else { 0 };
        let q = (x as i64 - 1 - m) as i32;
        CubeVec::new(r, q, (-(r as i64) - q as i64) as i32)
    }

    /// The component-wise sum of two vectors.
    pub fn plus(self, rhs: CubeVec) -> (v: CubeVec)
        requires
            fits_all(plus(self@, rhs@)),
        ensures
            v@ == plus(self@, rhs@),
    {
        CubeVec { r: self.r + rhs.r, q: self.q + rhs.q, s: self.s + rhs.s }
    }

    /// This vector moved one step in a direction.
    pub fn plus_dir(self, d: CubeDir) -> (v: CubeVec)
        requires
            fits_all(plus(self@, unit(d))),
        ensures
            v@ == plus(self@, unit(d)),
    {
        self.plus(CubeVec::from_dir(d))
    }

    /// Adds a vector to this one in place.
    pub fn plus_assign(&mut self, rhs: CubeVec)
        requires
            fits_all(plus(old(self)@, rhs@)),
        ensures
            final(self)@ == plus(old(self)@, rhs@),
    {
        self.r = self.r + rhs.r;
        self.q = self.q + rhs.q;
        self.s = self.s + rhs.s;
    }

    /// Moves this vector one step in a direction, in place.
    pub fn plus_dir_assign(&mut self, d: CubeDir)
        requires
            fits_all(plus(old(self)@, unit(d))),
        ensures
            final(self)@ == plus(old(self)@, unit(d)),
    {
        self.plus_assign(CubeVec::from_dir(d));
    }

    /// The component-wise difference of two vectors.
    pub fn minus(self, rhs: CubeVec) -> (v: CubeVec)
        requires
            fits_all(minus(self@, rhs@)),
        ensures
            v@ == minus(self@, rhs@),
    {
        CubeVec { r: self.r - rhs.r, q: self.q - rhs.q, s: self.s - rhs.s }
    }

    /// This vector moved one step against a direction.
    pub fn minus_dir(self, d: CubeDir) -> (v: CubeVec)
        requires
            fits_all(minus(self@, unit(d))),
        ensures
            v@ == minus(self@, unit(d)),
    {
        self.minus(CubeVec::from_dir(d))
    }

    /// Subtracts a vector from this one in place.
    pub fn minus_assign(&mut self, rhs: CubeVec)
        requires
            fits_all(minus(old(self)@, rhs@)),
        ensures
            final(self)@ == minus(old(self)@, rhs@),
    {
        self.r = self.r - rhs.r;
        self.q = self.q - rhs.q;
        self.s = self.s - rhs.s;
    }

    /// Moves this vector one step against a direction, in place.
    pub fn minus_dir_assign(&mut self, d: CubeDir)
        requires
            fits_all(minus(old(self)@, unit(d))),
        ensures
            final(self)@ == minus(old(self)@, unit(d)),
    {
        self.minus_assign(CubeVec::from_dir(d));
    }

    /// This vector scaled by `k`.
    pub fn times(self, k: i32) -> (v: CubeVec)
        requires
            fits_all(scale(self@, k as int)),
        ensures
            v@ == scale(self@, k as int),
    {
        CubeVec { r: self.r * k, q: self.q * k, s: self.s * k }
    }

    /// Scales this vector by `k` in place.
    pub fn times_assign(&mut self, k: i32)
        requires
            fits_all(scale(old(self)@, k as int)),
        ensures
            final(self)@ == scale(old(self)@, k as int),
    {
        self.r = self.r * k;
        self.q = self.q * k;
        self.s = self.s * k;
    }

    /// This vector divided by `k`, where `k` divides every component.
    pub fn div_by(self, k: i32) -> (v: CubeVec)
        requires
            k > 0,
            self@.0 % (k as int) == 0,
            self@.1 % (k as int) == 0,
            self@.2 % (k as int) == 0,
        ensures
            scale(v@, k as int) == self@,
    {
        CubeVec { r: exact_div(self.r, k), q: exact_div(self.q, k), s: exact_div(self.s, k) }
    }

    /// Divides this vector by `k` in place, where `k` divides every component.
    pub fn div_by_assign(&mut self, k: i32)
        requires
            k > 0,
            old(self)@.0 % (k as int) == 0,
            old(self)@.1 % (k as int) == 0,
            old(self)@.2 % (k as int) == 0,
        ensures
            scale(final(self)@, k as int) == old(self)@,
    {
        *self = self.div_by(k);
    }

    /// Reads a vector from the integer attributes `r`, `q` and `s` of a node.
    /// The three values are taken as they are: their sum is not checked.
    pub fn from_element(e: &Element) -> (v: Result<CubeVec, Error>)
        ensures
            match (attr_i32(*e, "r"@), attr_i32(*e, "q"@), attr_i32(*e, "s"@)) {
                (Some(r), Some(q), Some(s)) => v matches Ok(c) && c@ == (r as int, q as int, s as int),
                (None, _, _) => v matches Err(err) && int_attr_error(*e, "r"@, err),
                (Some(_), None, _) => v matches Err(err) && int_attr_error(*e, "q"@, err),
                (Some(_), Some(_), None) => v matches Err(err) && int_attr_error(*e, "s"@, err),
            },
    {
        let r = match e.attribute_i32("r") {
            Ok(r) => r,
            Err(err) => return Err(err),
        };
        let q = match e.attribute_i32("q") {
            Ok(q) => q,
            Err(err) => return Err(err),
        };
        let s = match e.attribute_i32("s") {
            Ok(s) => s,
            Err(err) => return Err(err),
        };
        Ok(CubeVec::new(r, q, s))
    }

    /// The text of this vector: its components in parentheses, separated by commas.
    pub fn to_text(self) -> (t: String)
        ensures
            t@ == "("@ + int_text(self@.0) + ", "@ + int_text(self@.1) + ", "@ + int_text(self@.2)
                + ")"@,
    {
        let mut t = String::new();
        t.append("(");
        t.append(format_i32(self.r).as_str());
        t.append(", ");
        t.append(format_i32(self.q).as_str());
        t.append(", ");
        t.append(format_i32(self.s).as_str());
        t.append(")");
        t
    }

    /// The six hex neighbors, in the clockwise order of directions starting at `Right`.
    pub fn hex_neighbors(self) -> (n: [CubeVec; 6])
        requires
            forall|d: CubeDir| fits_all(#[trigger] plus(self@, unit(d))),
        ensures
            forall|i: int| 0 <= i < 6 ==> (#[trigger] n@[i])@ == plus(self@, unit(CubeDir::of_ord(i))),
    {
        let all = CubeDir::all();
        [
            self.plus_dir(all[0]),
            self.plus_dir(all[1]),
            self.plus_dir(all[2]),
            self.plus_dir(all[3]),
            self.plus_dir(all[4]),
            self.plus_dir(all[5]),
        ]
    }
}

/// `x / k`, where `k` divides `x`.
fn exact_div(x: i32, k: i32) -> (d: i32)
    requires
        k > 0,
        (x as int) % (k as int) == 0,
    ensures
        d * k == x,
{
    let a: i64 = if x < 0 { -(x as i64) } else { x as i64 };
    let k64 = k as i64;
    let ghost m: int = (a as int) / (k as int);
    proof {
        lemma_fundamental_div_mod(x as int, k as int);
        let mx = (x as int) / (k as int);
        let am: int = if x < 0 { -mx } else { mx };
        assert(a == k * am) by (nonlinear_arith)
            requires
                x == k * mx,
                a == (if x < 0 { -(x as int) } else { x as int }),
                am == (if x < 0 { -mx } else { mx }),
        ;
        assert(am >= 0 && am <= a) by (nonlinear_arith)
            requires
                a == k * am,
                a >= 0,
                k > 0,
        ;
        lemma_div_multiples_vanish(am, k as int);
        assert(m == am);
        assert(m * k == a) by (nonlinear_arith)
            requires
                a == k * am,
                m == am,
        ;
    }
    let q = a / k64;
    assert(q == m);
    assert(x < 0 ==> (-q) * k == x) by (nonlinear_arith)
        requires
            q * k == a,
            a == (if x < 0 { -(x as int) } else { x as int }),
    ;
    if x < 0 {
        (-q) as i32
    } else {
        q as i32
    }
}

/// Rotating by `n` turns and then by `-n` turns gives the vector back, and
/// six turns make a full revolution.
pub proof fn lemma_rotate_inverse(v: Triple, n: int)
    ensures
        rotate(rotate(v, n), -n) == v,
        rotate(v, 6) == v,
{
    let k = n % 3;
    assert((-n) % 3 == (3 - k) % 3) by (nonlinear_arith)
        requires
            k == n % 3,
    ;
    assert((-n) % 2 == n % 2) by (nonlinear_arith);
    assert((-n + 1) % 3 == (4 - k) % 3) by (nonlinear_arith)
        requires
            k == n % 3,
    ;
    assert((-n + 2) % 3 == (5 - k) % 3) by (nonlinear_arith)
        requires
            k == n % 3,
    ;
    assert((n + 1) % 3 == (k + 1) % 3) by (nonlinear_arith)
        requires
            k == n % 3,
    ;
    assert((n + 2) % 3 == (k + 2) % 3) by (nonlinear_arith)
        requires
            k == n % 3,
    ;
}

/// Every rotation of a vector whose components sum to zero again has
/// components that sum to zero.
pub proof fn lemma_rotate_keeps_cube(v: Triple, n: int)
    requires
        is_cube(v),
    ensures
        is_cube(rotate(v, n)),
{
    let k = n % 3;
    assert((n + 1) % 3 == (k + 1) % 3) by (nonlinear_arith)
        requires
            k == n % 3,
    ;
    assert((n + 2) % 3 == (k + 2) % 3) by (nonlinear_arith)
        requires
            k == n % 3,
    ;
}

/// The neighbors of the zero vector are exactly the six unit vectors, in the
/// clockwise order of directions starting at `Right`.
pub proof fn lemma_zero_neighbors(i: int)
    requires
        0 <= i < 6,
    ensures
        plus((0, 0, 0), unit(CubeDir::of_ord(i))) == unit(CubeDir::of_ord(i)),
        CubeDir::of_ord(i).ord() == i,
{
}

} // verus!
