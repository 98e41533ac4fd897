//! Helper structs for simple geometric calculations.

use core::ops::Range;
use vstd::arithmetic::mul::lemma_mul_inequality;
use vstd::prelude::*;
use vstd::std_specs::convert::FromSpecImpl;
use vstd::std_specs::ops::{AddSpecImpl, DivSpecImpl, MulSpecImpl, RemSpecImpl, SubSpecImpl};

use crate::convert::{to_i32, to_u32};

verus! {

/// The `i32` a number is converted to: itself, or zero when it does not fit.
pub open spec fn i32_or_zero(value: int) -> i32 {
    if i32::MIN <= value <= i32::MAX {
        value as i32
    } else {
        0i32
    }
}

/// The `u32` a number is converted to: itself, or `fallback` when it does not fit.
pub open spec fn u32_or(value: int, fallback: u32) -> u32 {
    if 0 <= value <= u32::MAX {
        value as u32
    } else {
        fallback
    }
}

/// A signed value with everything below zero cut off.
pub open spec fn at_least_zero(value: int) -> int {
    if value < 0 {
        0
    } else {
        value
    }
}

/// Whether `value` is an `i32`.
pub open spec fn fits_i32(value: int) -> bool {
    i32::MIN <= value <= i32::MAX
}

/// Whether `value` is a `u32`.
pub open spec fn fits_u32(value: int) -> bool {
    0 <= value <= u32::MAX
}

/// The remainder that Euclidean division leaves, which is never negative.
fn rem_euclid_i32(value: i32, modulus: i32) -> (r: i32)
    requires
        modulus != 0,
    ensures
        r == (value as int) % (modulus as int),
        0 <= r,
{
    let value: i64 = value as i64;
    let modulus: i64 = modulus as i64;
    let size: i64 = if modulus < 0 {
        -modulus
    } else {
        modulus
    };
    let r: i64 = value % size;
    let r: i64 = if r < 0 {
        r + size
    } else {
        r
    };
    proof {
        let v = value as int;
        let m = modulus as int;
        let s = size as int;
        // `r` is the remainder of `v` by `s`, and dividing by `-s` leaves the same
        assert(r == v % s) by {
            if v < 0 {
                vstd::arithmetic::div_mod::lemma_fundamental_div_mod(-v, s);
                vstd::arithmetic::div_mod::lemma_mod_bound(-v, s);
                let q = (-v) / s;
                let t = (-v) % s;
                if t == 0 {
                    assert(v == (-q) * s + 0) by (nonlinear_arith)
                        requires
                            -v == s * q + t,
                            t == 0,
                    ;
                    vstd::arithmetic::div_mod::lemma_fundamental_div_mod_converse(v, s, -q, 0);
                } else {
                    assert(v == (-q - 1) * s + (s - t)) by (nonlinear_arith)
                        requires
                            -v == s * q + t,
                    ;
                    vstd::arithmetic::div_mod::lemma_fundamental_div_mod_converse(
                        v,
                        s,
                        -q - 1,
                        s - t,
                    );
                }
            }
        }
        if m < 0 {
            vstd::arithmetic::div_mod::lemma_fundamental_div_mod(v, s);
            vstd::arithmetic::div_mod::lemma_mod_bound(v, s);
            let q = v / s;
            assert(v == m * (-q) + v % s) by (nonlinear_arith)
                requires
                    v == s * q + v % s,
                    m == -s,
            ;
            lemma_euclid_unique(v, m, -q, v % s);
        }
    }
    r as i32
}

/// A quotient and a remainder in range are the ones that division gives.
proof fn lemma_euclid_unique(value: int, modulus: int, quotient: int, remainder: int)
    requires
        modulus < 0,
        value == modulus * quotient + remainder,
        0 <= remainder < -modulus,
    ensures
        value % modulus == remainder,
{
    // Verus defines `%` with a negative modulus through the positive one
    assert(value % modulus == value % (-modulus)) by (nonlinear_arith);
    assert(value == (-quotient) * (-modulus) + remainder) by (nonlinear_arith)
        requires
            value == modulus * quotient + remainder,
    ;
    vstd::arithmetic::div_mod::lemma_fundamental_div_mod_converse(
        value,
        -modulus,
        -quotient,
        remainder,
    );
}

/// Coordinates, used for UV and offsets.
#[derive(Debug, Clone, Copy, PartialEq, Eq, Structural)]
pub struct Coordinate {
    /// X position in pixels.
    pub x: i32,
    /// Y position in pixels.
    pub y: i32,
}

impl Coordinate {
    /// Create a new coordinate. A component that is no `i32` becomes zero.
    pub fn new(x: i64, y: i64) -> (r: Self)
        ensures
            r.x == i32_or_zero(x as int),
            r.y == i32_or_zero(y as int),
    {
        let x: i32 = match to_i32(x) {
            Some(x) => x,
            None => 0,
        };
        let y: i32 = match to_i32(y) {
            Some(y) => y,
            None => 0,
        };
        Self { x, y }
    }

    /// Create from a `i32` tuple.
    pub fn from_tuple(tuple: (i32, i32)) -> (r: Self)
        ensures
            r.x == tuple.0,
            r.y == tuple.1,
    {
        Self { x: tuple.0, y: tuple.1 }
    }

    /// Tuple of `(x, y)`.
    pub fn as_tuple(&self) -> (r: (i32, i32))
        ensures
            r.0 == self.x,
            r.1 == self.y,
    {
        (self.x, self.y)
    }

    /// Real modulus: both components end up in `0..|other|`.
    pub fn rem_euclid(&self, other: Coordinate) -> (r: Self)
        requires
            other.x != 0,
            other.y != 0,
        ensures
            r.x == (self.x as int) % (other.x as int),
            r.y == (self.y as int) % (other.y as int),
            0 <= r.x,
            0 <= r.y,
    {
        Self { x: rem_euclid_i32(self.x, other.x), y: rem_euclid_i32(self.y, other.y) }
    }

    /// Add another coordinate to this one in place.
    pub fn add_assign(&mut self, rhs: Coordinate)
        requires
            fits_i32(old(self).x + rhs.x),
            fits_i32(old(self).y + rhs.y),
        ensures
            final(self).x == old(self).x + rhs.x,
            final(self).y == old(self).y + rhs.y,
    {
        self.x = self.x + rhs.x;
        self.y = self.y + rhs.y;
    }
}

impl From<(i64, i64)> for Coordinate {
    fn from(value: (i64, i64)) -> (r: Self) {
        Coordinate::new(value.0, value.1)
    }
}

impl FromSpecImpl<(i64, i64)> for Coordinate {
    open spec fn obeys_from_spec() -> bool {
        true
    }

    open spec fn from_spec(value: (i64, i64)) -> Self {
        Coordinate { x: i32_or_zero(value.0 as int), y: i32_or_zero(value.1 as int) }
    }
}

impl From<Size> for Coordinate {
    fn from(size: Size) -> (r: Self) {
        size.as_coordinate()
    }
}

impl FromSpecImpl<Size> for Coordinate {
    open spec fn obeys_from_spec() -> bool {
        true
    }

    open spec fn from_spec(size: Size) -> Self {
        Coordinate { x: size.width as i32, y: size.height as i32 }
    }
}

impl core::ops::Add<Coordinate> for Coordinate {
    type Output = Coordinate;

    fn add(self, rhs: Coordinate) -> (r: Coordinate) {
        Coordinate { x: self.x + rhs.x, y: self.y + rhs.y }
    }
}

impl AddSpecImpl<Coordinate> for Coordinate {
    open spec fn obeys_add_spec() -> bool {
        true
    }

    open spec fn add_req(self, rhs: Coordinate) -> bool {
        fits_i32(self.x + rhs.x) && fits_i32(self.y + rhs.y)
    }

    open spec fn add_spec(self, rhs: Coordinate) -> Coordinate {
        Coordinate { x: (self.x + rhs.x) as i32, y: (self.y + rhs.y) as i32 }
    }
}

impl core::ops::Sub<Coordinate> for Coordinate {
    type Output = Coordinate;

    fn sub(self, rhs: Coordinate) -> (r: Coordinate) {
        Coordinate { x: self.x - rhs.x, y: self.y - rhs.y }
    }
}

impl SubSpecImpl<Coordinate> for Coordinate {
    open spec fn obeys_sub_spec() -> bool {
        true
    }

    open spec fn sub_req(self, rhs: Coordinate) -> bool {
        fits_i32(self.x - rhs.x) && fits_i32(self.y - rhs.y)
    }

    open spec fn sub_spec(self, rhs: Coordinate) -> Coordinate {
        Coordinate { x: (self.x - rhs.x) as i32, y: (self.y - rhs.y) as i32 }
    }
}

impl core::ops::Mul<Coordinate> for Coordinate {
    type Output = Coordinate;

    fn mul(self, rhs: Coordinate) -> (r: Coordinate) {
        let x: i64 = self.x as i64 * rhs.x as i64;
        let y: i64 = self.y as i64 * rhs.y as i64;
        Coordinate { x: x as i32, y: y as i32 }
    }
}

impl MulSpecImpl<Coordinate> for Coordinate {
    open spec fn obeys_mul_spec() -> bool {
        true
    }

    open spec fn mul_req(self, rhs: Coordinate) -> bool {
        fits_i32(self.x * rhs.x) && fits_i32(self.y * rhs.y)
    }

    open spec fn mul_spec(self, rhs: Coordinate) -> Coordinate {
        Coordinate { x: (self.x * rhs.x) as i32, y: (self.y * rhs.y) as i32 }
    }
}

/// The size of a number without its sign.
pub open spec fn magnitude(value: int) -> int {
    if value < 0 {
        -value
    } else {
        value
    }
}

/// The remainder of a division that rounds towards zero: it has the sign of
/// `value`, whatever the sign of `modulus`.
pub open spec fn truncated_rem(value: int, modulus: int) -> int {
    if value >= 0 {
        value % magnitude(modulus)
    } else {
        -((-value) % magnitude(modulus))
    }
}

/// The remainder of a division that rounds towards zero.
fn rem_i32(value: i32, modulus: i32) -> (r: i32)
    requires
        modulus != 0,
    ensures
        r == truncated_rem(value as int, modulus as int),
{
    let size: i64 = if modulus < 0 {
        -(modulus as i64)
    } else {
        modulus as i64
    };
    let r: i64 = value as i64 % size;
    proof {
        vstd::arithmetic::div_mod::lemma_mod_bound(value as int, size as int);
        vstd::arithmetic::div_mod::lemma_mod_bound(-(value as int), size as int);
    }
    r as i32
}

impl core::ops::Rem<Coordinate> for Coordinate {
    type Output = Coordinate;

    fn rem(self, rhs: Coordinate) -> (r: Coordinate) {
        Coordinate { x: rem_i32(self.x, rhs.x), y: rem_i32(self.y, rhs.y) }
    }
}

impl RemSpecImpl<Coordinate> for Coordinate {
    open spec fn obeys_rem_spec() -> bool {
        true
    }

    open spec fn rem_req(self, rhs: Coordinate) -> bool {
        rhs.x != 0 && rhs.y != 0
    }

    open spec fn rem_spec(self, rhs: Coordinate) -> Coordinate {
        Coordinate {
            x: truncated_rem(self.x as int, rhs.x as int) as i32,
            y: truncated_rem(self.y as int, rhs.y as int) as i32,
        }
    }
}

/// Sizes.
#[derive(Debug, Clone, Copy, PartialEq, Eq, Structural)]
pub struct Size {
    /// Width in pixels.
    pub width: u32,
    /// Height in pixels.
    pub height: u32,
}

impl Size {
    /// The number of pixels of an area of this size.
    pub open spec fn area(self) -> int {
        self.width * self.height
    }

    /// Create a new size. A component that is no `u32` becomes zero.
    pub fn new(width: i64, height: i64) -> (r: Self)
        ensures
            r.width == u32_or(width as int, 0),
            r.height == u32_or(height as int, 0),
    {
        let width: u32 = match to_u32(width) {
            Some(width) => width,
            None => 0,
        };
        let height: u32 = match to_u32(height) {
            Some(height) => height,
            None => 0,
        };
        Self { width, height }
    }

    /// Create from a `u32` tuple.
    pub fn from_tuple(tuple: (u32, u32)) -> (r: Self)
        ensures
            r.width == tuple.0,
            r.height == tuple.1,
    {
        Self { width: tuple.0, height: tuple.1 }
    }

    /// Tuple of `(width, height)`.
    pub fn as_tuple(&self) -> (r: (u32, u32))
        ensures
            r.0 == self.width,
            r.1 == self.height,
    {
        (self.width, self.height)
    }

    /// `(width, height)` -> `(x, y)`, keeping the low 32 bits of each.
    pub fn as_coordinate(&self) -> (r: Coordinate)
        ensures
            r.x == self.width as i32,
            r.y == self.height as i32,
            self.width <= i32::MAX ==> r.x == self.width,
            self.height <= i32::MAX ==> r.y == self.height,
    {
        Coordinate { x: self.width as i32, y: self.height as i32 }
    }

    /// Amount of pixels.
    pub fn pixels(&self) -> (r: usize)
        requires
            self.area() <= usize::MAX,
        ensures
            r == self.area(),
    {
        self.width as usize * self.height as usize
    }

    /// Calculate the size from the length of a buffer and the width.
    pub fn from_len(len: usize, width: usize) -> (r: Self)
        requires
            0 < width <= u32::MAX,
            len / width <= u32::MAX,
        ensures
            r.width == width,
            r.height == len / width,
    {
        Self { width: width as u32, height: (len / width) as u32 }
    }

    /// Every position of an area of this size, row by row.
    pub fn coord_iter(&self) -> (r: Vec<Coordinate>)
        requires
            self.area() <= usize::MAX,
        ensures
            r@.len() == self.area(),
            forall|x: int, y: int|
                0 <= x < self.width && 0 <= y < self.height ==> #[trigger] r@[y * self.width + x]
                    == (Coordinate { x: i32_or_zero(x), y: i32_or_zero(y) }),
    {
        let ghost width = self.width as int;
        let mut coords: Vec<Coordinate> = Vec::new();
        let mut y: u32 = 0;
        while y < self.height
            invariant
                width == self.width,
                y <= self.height,
                self.area() <= usize::MAX,
                coords@.len() == y * width,
                forall|i: int, j: int|
                    0 <= i < width && 0 <= j < y ==> #[trigger] coords@[j * width + i]
                        == (Coordinate { x: i32_or_zero(i), y: i32_or_zero(j) }),
            decreases self.height - y,
        {
            let mut x: u32 = 0;
            while x < self.width
                invariant
                    width == self.width,
                    x <= self.width,
                    y < self.height,
                    self.area() <= usize::MAX,
                    coords@.len() == y * width + x,
                    forall|i: int, j: int|
                        0 <= i < width && 0 <= j < y ==> #[trigger] coords@[j * width + i]
                            == (Coordinate { x: i32_or_zero(i), y: i32_or_zero(j) }),
                    forall|i: int|
                        0 <= i < x ==> #[trigger] coords@[y * width + i] == (Coordinate {
                            x: i32_or_zero(i),
                            y: i32_or_zero(y as int),
                        }),
                decreases self.width - x,
            {
                let ghost before = coords@;
                coords.push(Coordinate::new(x as i64, y as i64));
                proof {
                    assert forall|i: int, j: int| 0 <= i < width && 0 <= j < y implies (
                    #[trigger] coords@[j * width + i]) == (Coordinate {
                        x: i32_or_zero(i),
                        y: i32_or_zero(j),
                    }) by {
                        lemma_cell_below(i, j, y as int, width);
                        assert(coords@[j * width + i] == before[j * width + i]);
                    }
                }
                x = x + 1;
            }
            proof {
                assert((y + 1) * width == y * width + width) by (nonlinear_arith);
                assert forall|i: int, j: int| 0 <= i < width && 0 <= j < y + 1 implies (
                #[trigger] coords@[j * width + i]) == (Coordinate {
                    x: i32_or_zero(i),
                    y: i32_or_zero(j),
                }) by {
                    if j == y {
                        assert(coords@[y * width + i] == (Coordinate {
                            x: i32_or_zero(i),
                            y: i32_or_zero(y as int),
                        }));
                    }
                }
            }
            y = y + 1;
        }
        proof {
            assert(self.height * width == width * self.height) by (nonlinear_arith);
        }
        coords
    }

    /// The smaller width and the smaller height of the two sizes.
    pub fn min(&self, other: Self) -> (r: Self)
        ensures
            r.width == (if self.width <= other.width {
                self.width
            } else {
                other.width
            }),
            r.height == (if self.height <= other.height {
                self.height
            } else {
                other.height
            }),
    {
        Self {
            width: if self.width <= other.width {
                self.width
            } else {
                other.width
            },
            height: if self.height <= other.height {
                self.height
            } else {
                other.height
            },
        }
    }

    /// Real modulus.
    pub fn rem_euclid(&self, other: Size) -> (r: Self)
        requires
            other.width != 0,
            other.height != 0,
        ensures
            r.width == self.width % other.width,
            r.height == self.height % other.height,
    {
        Self { width: self.width % other.width, height: self.height % other.height }
    }
}

/// A cell of an earlier row comes before the cells of row `y`.
proof fn lemma_cell_below(i: int, j: int, y: int, width: int)
    requires
        0 <= i < width,
        0 <= j < y,
    ensures
        0 <= j * width + i < y * width,
{
    assert(j * width + i < y * width && 0 <= j * width) by (nonlinear_arith)
        requires
            0 <= i < width,
            0 <= j < y,
    ;
}

impl From<(i64, i64)> for Size {
    fn from(value: (i64, i64)) -> (r: Self) {
        Size::new(value.0, value.1)
    }
}

impl FromSpecImpl<(i64, i64)> for Size {
    open spec fn obeys_from_spec() -> bool {
        true
    }

    open spec fn from_spec(value: (i64, i64)) -> Self {
        Size { width: u32_or(value.0 as int, 0), height: u32_or(value.1 as int, 0) }
    }
}

impl core::ops::Add<Size> for Size {
    type Output = Size;

    fn add(self, rhs: Size) -> (r: Size) {
        Size { width: self.width + rhs.width, height: self.height + rhs.height }
    }
}

impl AddSpecImpl<Size> for Size {
    open spec fn obeys_add_spec() -> bool {
        true
    }

    open spec fn add_req(self, rhs: Size) -> bool {
        fits_u32(self.width + rhs.width) && fits_u32(self.height + rhs.height)
    }

    open spec fn add_spec(self, rhs: Size) -> Size {
        Size { width: (self.width + rhs.width) as u32, height: (self.height + rhs.height) as u32 }
    }
}

impl core::ops::Sub<Size> for Size {
    type Output = Size;

    fn sub(self, rhs: Size) -> (r: Size) {
        Size { width: self.width - rhs.width, height: self.height - rhs.height }
    }
}

impl SubSpecImpl<Size> for Size {
    open spec fn obeys_sub_spec() -> bool {
        true
    }

    open spec fn sub_req(self, rhs: Size) -> bool {
        rhs.width <= self.width && rhs.height <= self.height
    }

    open spec fn sub_spec(self, rhs: Size) -> Size {
        Size { width: (self.width - rhs.width) as u32, height: (self.height - rhs.height) as u32 }
    }
}

impl core::ops::Mul<Size> for Size {
    type Output = Size;

    fn mul(self, rhs: Size) -> (r: Size) {
        let width: u64 = self.width as u64 * rhs.width as u64;
        let height: u64 = self.height as u64 * rhs.height as u64;
        Size { width: width as u32, height: height as u32 }
    }
}

impl MulSpecImpl<Size> for Size {
    open spec fn obeys_mul_spec() -> bool {
        true
    }

    open spec fn mul_req(self, rhs: Size) -> bool {
        fits_u32(self.width * rhs.width) && fits_u32(self.height * rhs.height)
    }

    open spec fn mul_spec(self, rhs: Size) -> Size {
        Size { width: (self.width * rhs.width) as u32, height: (self.height * rhs.height) as u32 }
    }
}

impl core::ops::Mul<i64> for Size {
    type Output = Size;

    /// Scale both sides. A factor that is no `u32` counts as one.
    fn mul(self, rhs: i64) -> (r: Size) {
        let factor: u32 = match to_u32(rhs) {
            Some(factor) => factor,
            None => 1,
        };
        let width: u64 = self.width as u64 * factor as u64;
        let height: u64 = self.height as u64 * factor as u64;
        Size { width: width as u32, height: height as u32 }
    }
}

impl MulSpecImpl<i64> for Size {
    open spec fn obeys_mul_spec() -> bool {
        true
    }

    open spec fn mul_req(self, rhs: i64) -> bool {
        fits_u32(self.width * u32_or(rhs as int, 1)) && fits_u32(
            self.height * u32_or(rhs as int, 1),
        )
    }

    open spec fn mul_spec(self, rhs: i64) -> Size {
        Size {
            width: (self.width * u32_or(rhs as int, 1)) as u32,
            height: (self.height * u32_or(rhs as int, 1)) as u32,
        }
    }
}

impl core::ops::Div<Size> for Size {
    type Output = Size;

    fn div(self, rhs: Size) -> (r: Size) {
        Size { width: self.width / rhs.width, height: self.height / rhs.height }
    }
}

impl DivSpecImpl<Size> for Size {
    open spec fn obeys_div_spec() -> bool {
        true
    }

    open spec fn div_req(self, rhs: Size) -> bool {
        rhs.width != 0 && rhs.height != 0
    }

    open spec fn div_spec(self, rhs: Size) -> Size {
        Size { width: self.width / rhs.width, height: self.height / rhs.height }
    }
}

impl core::ops::Div<i64> for Size {
    type Output = Size;

    /// Divide both sides. A divisor that is no `u32` counts as one.
    fn div(self, rhs: i64) -> (r: Size) {
        let divisor: u32 = match to_u32(rhs) {
            Some(divisor) => divisor,
            None => 1,
        };
        Size { width: self.width / divisor, height: self.height / divisor }
    }
}

impl DivSpecImpl<i64> for Size {
    open spec fn obeys_div_spec() -> bool {
        true
    }

    open spec fn div_req(self, rhs: i64) -> bool {
        rhs != 0
    }

    open spec fn div_spec(self, rhs: i64) -> Size {
        Size {
            width: self.width / u32_or(rhs as int, 1),
            height: self.height / u32_or(rhs as int, 1),
        }
    }
}

impl core::ops::Rem<Size> for Size {
    type Output = Size;

    fn rem(self, rhs: Size) -> (r: Size) {
        Size { width: self.width % rhs.width, height: self.height % rhs.height }
    }
}

impl RemSpecImpl<Size> for Size {
    open spec fn obeys_rem_spec() -> bool {
        true
    }

    open spec fn rem_req(self, rhs: Size) -> bool {
        rhs.width != 0 && rhs.height != 0
    }

    open spec fn rem_spec(self, rhs: Size) -> Size {
        Size { width: self.width % rhs.width, height: self.height % rhs.height }
    }
}

impl core::ops::Rem<i64> for Size {
    type Output = Size;

    /// The remainders of both sides. The divisor has to be a `u32` above zero.
    fn rem(self, rhs: i64) -> (r: Size) {
        let divisor: u32 = match to_u32(rhs) {
            Some(divisor) => divisor,
            None => 0,
        };
        Size { width: self.width % divisor, height: self.height % divisor }
    }
}

impl RemSpecImpl<i64> for Size {
    open spec fn obeys_rem_spec() -> bool {
        true
    }

    open spec fn rem_req(self, rhs: i64) -> bool {
        0 < rhs <= u32::MAX
    }

    open spec fn rem_spec(self, rhs: i64) -> Size {
        Size { width: self.width % (rhs as u32), height: self.height % (rhs as u32) }
    }
}

/// Helper struct for defining sub-rectangles.
///
/// A sub-rectangle is a rectangle that's part of a bigger rectangle.
#[derive(Debug, Clone, Copy, PartialEq, Eq, Structural)]
pub struct Rect {
    /// X offset in pixels.
    pub x: i32,
    /// Y offset in pixels.
    pub y: i32,
    /// Size of the rectangle in pixels.
    pub size: Size,
}

/// A rectangle that selects a part of a bigger one.
pub type SubRect = Rect;

impl Rect {
    /// The first column right of the rectangle.
    pub open spec fn right_edge(self) -> int {
        self.x + self.size.width
    }

    /// The first row below the rectangle.
    pub open spec fn bottom_edge(self) -> int {
        self.y + self.size.height
    }

    /// Whether the pixel at `(px, py)` lies in the rectangle.
    pub open spec fn contains(self, px: int, py: int) -> bool {
        self.x <= px < self.right_edge() && self.y <= py < self.bottom_edge()
    }

    /// Whether the rectangle holds no pixel at all.
    pub open spec fn is_empty(self) -> bool {
        self.size.width == 0 || self.size.height == 0
    }

    /// Whether every pixel of the rectangle is one of `parent`.
    pub open spec fn within(self, parent: Rect) -> bool {
        &&& parent.x <= self.x
        &&& parent.y <= self.y
        &&& self.right_edge() <= parent.right_edge()
        &&& self.bottom_edge() <= parent.bottom_edge()
    }

    /// The rectangle for a whole buffer of the size.
    pub open spec fn spanning(size: Size) -> Rect {
        Rect { x: 0, y: 0, size }
    }

    /// Zero sized.
    pub fn zero() -> (r: Self)
        ensures
            r == (Rect { x: 0, y: 0, size: Size { width: 0, height: 0 } }),
    {
        Rect { x: 0, y: 0, size: Size { width: 0, height: 0 } }
    }

    /// Create a new sub-rectangle. A position that is no `i32` becomes zero.
    pub fn new(x: i64, y: i64, size: Size) -> (r: Self)
        ensures
            r.x == i32_or_zero(x as int),
            r.y == i32_or_zero(y as int),
            r.size == size,
    {
        let position = Coordinate::new(x, y);
        Self { x: position.x, y: position.y, size }
    }

    /// Construct from a size with zero coordinates.
    pub fn from_size(size: Size) -> (r: Self)
        ensures
            r == Rect::spanning(size),
    {
        Self { x: 0, y: 0, size }
    }

    /// Where one side of the rectangle starts after a shift to `target`.
    pub open spec fn shifted_start(start: int, length: int, target: int) -> int {
        if target < start {
            start
        } else if target < start + length {
            target
        } else {
            start + length
        }
    }

    /// How far a shift to `target` moves into the source.
    pub open spec fn shifted_offset(start: int, target: int) -> int {
        if target < start {
            start - target
        } else {
            0
        }
    }

    /// How much of one side is left after a shift to `target`.
    pub open spec fn shifted_length(start: int, length: int, target: int) -> int {
        if target < start {
            at_least_zero(length - (start - target))
        } else {
            start + length - Self::shifted_start(start, length, target)
        }
    }

    /// One side of [`Rect::shift`]: the new start, the offset and the length left.
    fn shift_side(start: i32, length: u32, target: i32) -> (r: (i32, i32, u32))
        requires
            fits_i32(Self::shifted_offset(start as int, target as int)),
        ensures
            r.0 == Self::shifted_start(start as int, length as int, target as int),
            r.1 == Self::shifted_offset(start as int, target as int),
            r.2 == Self::shifted_length(start as int, length as int, target as int),
    {
        if target < start {
            let offset: i32 = start - target;
            (start, offset, length.saturating_sub(offset as u32))
        } else {
            let end: i64 = start as i64 + length as i64;
            let moved: i64 = if (target as i64) < end {
                target as i64
            } else {
                end
            };
            (moved as i32, 0, (end - moved) as u32)
        }
    }

    /// The rectangle after a shift to the position `(new_x, new_y)`: the far
    /// edges stay where they are, the near edges move to the position as far as
    /// it lies between the edges.
    pub open spec fn shifted(self, new_x: int, new_y: int) -> Rect {
        Rect {
            x: Self::shifted_start(self.x as int, self.size.width as int, new_x) as i32,
            y: Self::shifted_start(self.y as int, self.size.height as int, new_y) as i32,
            size: Size {
                width: Self::shifted_length(self.x as int, self.size.width as int, new_x) as u32,
                height: Self::shifted_length(self.y as int, self.size.height as int, new_y) as u32,
            },
        }
    }

    /// Shift position while staying inside the rectangle already defined.
    ///
    /// The far edges stay where they are, so the rectangle shrinks. The
    /// coordinate returned is the offset into the source that makes up for a
    /// position left of or above the rectangle. A position that is no `i32`
    /// counts as zero.
    pub fn shift(&self, new_x: i64, new_y: i64) -> (r: (Coordinate, Self))
        requires
            fits_i32(Self::shifted_offset(self.x as int, i32_or_zero(new_x as int) as int)),
            fits_i32(Self::shifted_offset(self.y as int, i32_or_zero(new_y as int) as int)),
        ensures
            r.0.x == Self::shifted_offset(self.x as int, i32_or_zero(new_x as int) as int),
            r.0.y == Self::shifted_offset(self.y as int, i32_or_zero(new_y as int) as int),
            r.1 == self.shifted(i32_or_zero(new_x as int) as int, i32_or_zero(new_y as int) as int),
    {
        let target = Coordinate::new(new_x, new_y);
        let (x, u, width) = Self::shift_side(self.x, self.size.width, target.x);
        let (y, v, height) = Self::shift_side(self.y, self.size.height, target.y);
        let size = Size::new(width as i64, height as i64);
        let uv = Coordinate::new(u as i64, v as i64);
        (uv, Self { x, y, size })
    }

    /// Width as `u32`.
    pub fn width(&self) -> (r: u32)
        ensures
            r == self.size.width,
    {
        self.size.width
    }

    /// Height as `u32`.
    pub fn height(&self) -> (r: u32)
        ensures
            r == self.size.height,
    {
        self.size.height
    }

    /// Width and height as [`Size`].
    pub fn size(&self) -> (r: Size)
        ensures
            r == self.size,
    {
        self.size
    }

    /// Right position, `x + width`.
    pub fn right(&self) -> (r: i32)
        requires
            self.right_edge() <= i32::MAX,
        ensures
            r == self.right_edge(),
    {
        (self.x as i64 + self.size.width as i64) as i32
    }

    /// Bottom position, `y + height`.
    pub fn bottom(&self) -> (r: i32)
        requires
            self.bottom_edge() <= i32::MAX,
        ensures
            r == self.bottom_edge(),
    {
        (self.y as i64 + self.size.height as i64) as i32
    }

    /// X & Y position as a coordinate.
    pub fn coord(&self) -> (r: Coordinate)
        ensures
            r.x == self.x,
            r.y == self.y,
    {
        Coordinate::new(self.x as i64, self.y as i64)
    }

    /// `(x, y, width, height)` slice.
    pub fn as_slice(&self) -> (r: (i32, i32, u32, u32))
        ensures
            r.0 == self.x,
            r.1 == self.y,
            r.2 == self.size.width,
            r.3 == self.size.height,
    {
        (self.x, self.y, self.size.width, self.size.height)
    }

    /// Whether the index ranges of all rows can be told with `usize`.
    pub open spec fn rows_fit(self, parent_size: Size) -> bool {
        &&& at_least_zero(self.y as int) + self.size.height <= usize::MAX
        &&& self.size.height > 0 ==> (at_least_zero(self.y as int) + self.size.height - 1)
            * parent_size.width + at_least_zero(self.x as int) + self.size.width <= usize::MAX
    }

    /// Where the row with number `row` of the rectangle starts in a buffer
    /// that is `parent_width` pixels wide. A negative position counts as zero.
    pub open spec fn row_start(self, parent_width: int, row: int) -> int {
        (at_least_zero(self.y as int) + row) * parent_width + at_least_zero(self.x as int)
    }

    /// Horizontal ranges in the buffer the rect is based on, one for each row
    /// from the top down.
    ///
    /// Each range represents a slice of pixels that can be taken. A position
    /// left of or above the buffer counts as zero.
    pub fn parent_ranges_iter(&self, parent_size: Size) -> (r: Vec<Range<usize>>)
        requires
            self.rows_fit(parent_size),
        ensures
            r@.len() == self.size.height,
            forall|row: int|
                0 <= row < self.size.height ==> (#[trigger] r@[row]).start == self.row_start(
                    parent_size.width as int,
                    row,
                ) && r@[row].end == r@[row].start + self.size.width,
    {
        let width: usize = self.size.width as usize;
        let height: usize = self.size.height as usize;
        let start_x: usize = if self.x < 0 {
            0
        } else {
            self.x as usize
        };
        let start_y: usize = if self.y < 0 {
            0
        } else {
            self.y as usize
        };
        let parent_width: usize = parent_size.width as usize;
        let mut ranges: Vec<Range<usize>> = Vec::new();
        let mut row: usize = 0;
        while row < height
            invariant
                row <= height,
                width == self.size.width,
                height == self.size.height,
                start_x == at_least_zero(self.x as int),
                start_y == at_least_zero(self.y as int),
                parent_width == parent_size.width,
                self.rows_fit(parent_size),
                ranges@.len() == row,
                forall|i: int|
                    0 <= i < row ==> (#[trigger] ranges@[i]).start == self.row_start(
                        parent_size.width as int,
                        i,
                    ) && ranges@[i].end == ranges@[i].start + self.size.width,
            decreases height - row,
        {
            proof {
                lemma_mul_inequality(
                    start_y + row,
                    start_y + height - 1,
                    parent_width as int,
                );
            }
            let start: usize = (start_y + row) * parent_width + start_x;
            let end: usize = start + width;
            ranges.push(start..end);
            row = row + 1;
        }
        ranges
    }
}

impl From<(i64, i64, i64, i64)> for Rect {
    fn from(value: (i64, i64, i64, i64)) -> (r: Self) {
        Rect::new(value.0, value.1, Size::new(value.2, value.3))
    }
}

impl FromSpecImpl<(i64, i64, i64, i64)> for Rect {
    open spec fn obeys_from_spec() -> bool {
        true
    }

    open spec fn from_spec(value: (i64, i64, i64, i64)) -> Self {
        Rect {
            x: i32_or_zero(value.0 as int),
            y: i32_or_zero(value.1 as int),
            size: Size { width: u32_or(value.2 as int, 0), height: u32_or(value.3 as int, 0) },
        }
    }
}

impl core::ops::Add<Coordinate> for Rect {
    type Output = Rect;

    /// Move the rectangle by an offset.
    fn add(self, rhs: Coordinate) -> (r: Rect) {
        Rect { x: self.x + rhs.x, y: self.y + rhs.y, size: self.size }
    }
}

impl AddSpecImpl<Coordinate> for Rect {
    open spec fn obeys_add_spec() -> bool {
        true
    }

    open spec fn add_req(self, rhs: Coordinate) -> bool {
        fits_i32(self.x + rhs.x) && fits_i32(self.y + rhs.y)
    }

    open spec fn add_spec(self, rhs: Coordinate) -> Rect {
        Rect { x: (self.x + rhs.x) as i32, y: (self.y + rhs.y) as i32, size: self.size }
    }
}

} // verus!
