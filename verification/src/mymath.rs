//! Integer geometry: points, rectangles and the ray-casting hit test.
//!
//! Coordinates follow the convention of the windowing layer that the editor
//! draws with: the constructors bring a position into `[MIN_COORD, MAX_COORD]`
//! and a size into `[1, MAX_COORD]`, and the corners of a rectangle are points
//! of that range. The fields of a point and of a rectangle are open to
//! writing, so a value need not be in range: `Rect::sized` says of a
//! rectangle that its size is.

use crate::number::Single;
use vstd::prelude::*;

verus! {

/// Largest coordinate and largest size that a constructor stores.
pub const MAX_COORD: i32 = 1073741823;

/// Smallest coordinate that a constructor stores.
pub const MIN_COORD: i32 = -1073741824;

/// The position nearest to `v` within `[MIN_COORD, MAX_COORD]`.
pub open spec fn clamp_position(v: int) -> int {
    if v > MAX_COORD {
        MAX_COORD as int
    } else if v < MIN_COORD {
        MIN_COORD as int
    } else {
        v
    }
}

/// The size nearest to `v` within `[1, MAX_COORD]`.
pub open spec fn clamp_size(v: int) -> int {
    if v <= 0 {
        1
    } else if v > MAX_COORD {
        MAX_COORD as int
    } else {
        v
    }
}

/// The coordinate nearest to `v`.
pub fn clamp_wide(v: i64) -> (r: i32)
    ensures
        r == clamp_position(v as int),
{
    if v > MAX_COORD as i64 {
        MAX_COORD
    } else if v < MIN_COORD as i64 {
        MIN_COORD
    } else {
        v as i32
    }
}

fn clamp_extent(v: u32) -> (r: u32)
    ensures
        r == clamp_size(v as int),
{
    if v == 0 {
        1
    } else if v > MAX_COORD as u32 {
        MAX_COORD as u32
    } else {
        v
    }
}

/// A pixel coordinate.
#[derive(Clone, Copy, Debug, PartialEq, Eq, Structural)]
pub struct Point {
    pub x: i32,
    pub y: i32,
}

impl Point {
    /// The point at the given coordinates, each clamped to the coordinate range.
    pub fn new(x: i32, y: i32) -> (p: Point)
        ensures
            p.x == clamp_position(x as int),
            p.y == clamp_position(y as int),
    {
        Point { x: clamp_wide(x as i64), y: clamp_wide(y as i64) }
    }

    /// This point moved by `(dx, dy)`, clamped to the coordinate range.
    pub open spec fn spec_offset(self, dx: int, dy: int) -> Point {
        Point { x: clamp_position(self.x + dx) as i32, y: clamp_position(self.y + dy) as i32 }
    }

    /// This point moved by `(dx, dy)`; a coordinate that leaves the range
    /// stops at its bound.
    pub fn offset(self, dx: i32, dy: i32) -> (p: Point)
        ensures
            p == self.spec_offset(dx as int, dy as int),
    {
        Point {
            x: clamp_wide(self.x as i64 + dx as i64),
            y: clamp_wide(self.y as i64 + dy as i64),
        }
    }

    /// The sum of two points, coordinate by coordinate, clamped.
    pub fn plus(self, rhs: Point) -> (p: Point)
        ensures
            p == self.spec_offset(rhs.x as int, rhs.y as int),
    {
        self.offset(rhs.x, rhs.y)
    }

    /// The difference of two points, coordinate by coordinate, clamped.
    pub fn minus(self, rhs: Point) -> (p: Point)
        ensures
            p == self.spec_offset(-(rhs.x as int), -(rhs.y as int)),
    {
        Point {
            x: clamp_wide(self.x as i64 - rhs.x as i64),
            y: clamp_wide(self.y as i64 - rhs.y as i64),
        }
    }
}

/// An axis-aligned rectangle: the origin is its top-left corner.
#[derive(Clone, Copy, Debug, PartialEq, Eq, Structural)]
pub struct Rect {
    pub x: i32,
    pub y: i32,
    pub w: u32,
    pub h: u32,
}

impl Rect {
    /// The rectangle that `new` builds from the given values.
    pub open spec fn spec_new(x: int, y: int, width: int, height: int) -> Rect {
        Rect {
            x: clamp_position(x) as i32,
            y: clamp_position(y) as i32,
            w: clamp_size(width) as u32,
            h: clamp_size(height) as u32,
        }
    }

    /// Whether the width and the height lie in `[1, MAX_COORD]`, as those of
    /// a rectangle that a constructor made do.
    pub open spec fn sized(self) -> bool {
        1 <= self.w <= MAX_COORD && 1 <= self.h <= MAX_COORD
    }

    /// A rectangle at `(x, y)`. The position is clamped to the coordinate
    /// range; a size of 0 becomes 1 and a size above `MAX_COORD` becomes
    /// `MAX_COORD`.
    pub fn new(x: i32, y: i32, width: u32, height: u32) -> (r: Rect)
        ensures
            r == Rect::spec_new(x as int, y as int, width as int, height as int),
            r.sized(),
    {
        Rect {
            x: clamp_wide(x as i64),
            y: clamp_wide(y as i64),
            w: clamp_extent(width),
            h: clamp_extent(height),
        }
    }

    pub fn width(&self) -> (w: u32)
        ensures
            w == self.w,
    {
        self.w
    }

    pub fn height(&self) -> (h: u32)
        ensures
            h == self.h,
    {
        self.h
    }

    /// Moves the left side to `x`, clamped to the coordinate range.
    pub fn set_x(&mut self, x: i32)
        ensures
            *final(self) == (Rect { x: clamp_position(x as int) as i32, ..*old(self) }),
    {
        self.x = clamp_wide(x as i64);
    }

    pub open spec fn spec_top_left(self) -> Point {
        Point { x: clamp_position(self.x as int) as i32, y: clamp_position(self.y as int) as i32 }
    }

    pub open spec fn spec_top_right(self) -> Point {
        Point {
            x: clamp_position(self.x + self.w) as i32,
            y: clamp_position(self.y as int) as i32,
        }
    }

    pub open spec fn spec_bottom_left(self) -> Point {
        Point {
            x: clamp_position(self.x as int) as i32,
            y: clamp_position(self.y + self.h) as i32,
        }
    }

    pub open spec fn spec_bottom_right(self) -> Point {
        Point {
            x: clamp_position(self.x + self.w) as i32,
            y: clamp_position(self.y + self.h) as i32,
        }
    }

    pub open spec fn spec_center(self) -> Point {
        Point {
            x: clamp_position(self.x + self.w / 2) as i32,
            y: clamp_position(self.y + self.h / 2) as i32,
        }
    }

    /// The four corners in the order that the hit test walks them:
    /// top-left, top-right, bottom-right, bottom-left.
    pub open spec fn spec_corners(self) -> Seq<Point> {
        seq![
            self.spec_top_left(),
            self.spec_top_right(),
            self.spec_bottom_right(),
            self.spec_bottom_left(),
        ]
    }

    pub fn top_left(&self) -> (p: Point)
        ensures
            p == self.spec_top_left(),
    {
        Point::new(self.x, self.y)
    }

    pub fn top_right(&self) -> (p: Point)
        ensures
            p == self.spec_top_right(),
    {
        Point { x: clamp_wide(self.x as i64 + self.w as i64), y: clamp_wide(self.y as i64) }
    }

    pub fn bottom_left(&self) -> (p: Point)
        ensures
            p == self.spec_bottom_left(),
    {
        Point { x: clamp_wide(self.x as i64), y: clamp_wide(self.y as i64 + self.h as i64) }
    }

    pub fn bottom_right(&self) -> (p: Point)
        ensures
            p == self.spec_bottom_right(),
    {
        Point {
            x: clamp_wide(self.x as i64 + self.w as i64),
            y: clamp_wide(self.y as i64 + self.h as i64),
        }
    }

    /// The middle of the rectangle, rounded towards the top-left corner.
    pub fn center(&self) -> (p: Point)
        ensures
            p == self.spec_center(),
    {
        Point {
            x: clamp_wide(self.x as i64 + (self.w / 2) as i64),
            y: clamp_wide(self.y as i64 + (self.h / 2) as i64),
        }
    }

    /// The four corners, ordered top-left, top-right, bottom-right, bottom-left.
    pub fn corners(&self) -> (quad: [Point; 4])
        ensures
            quad@ == self.spec_corners(),
    {
        let quad = [self.top_left(), self.top_right(), self.bottom_right(), self.bottom_left()];
        assert(quad@ =~= self.spec_corners());
        quad
    }
}

/// Twice the signed area of the triangle `p`, `q`, `r`: zero when the three
/// points lie on one line, positive for one winding and negative for the other.
pub open spec fn cross(p: Point, q: Point, r: Point) -> int {
    (q.y - p.y) * (r.x - q.x) - (q.x - p.x) * (r.y - q.y)
}

/// The winding of `p`, `q`, `r` as a code: 0 when they lie on one line, 1 when
/// `cross` is positive, 2 when it is negative.
pub open spec fn spec_orientation(p: Point, q: Point, r: Point) -> int {
    if cross(p, q, r) == 0 {
        0
    } else if cross(p, q, r) > 0 {
        1
    } else {
        2
    }
}

/// Whether `q` lies in the bounding box of `p` and `r`. For three points on one
/// line this says that `q` lies on the segment from `p` to `r`.
pub open spec fn spec_on_segment(p: Point, q: Point, r: Point) -> bool {
    &&& q.x <= if p.x >= r.x { p.x } else { r.x }
    &&& q.x >= if p.x <= r.x { p.x } else { r.x }
    &&& q.y <= if p.y >= r.y { p.y } else { r.y }
    &&& q.y >= if p.y <= r.y { p.y } else { r.y }
}

/// Whether the segment from `a` to `b` meets the segment from `c` to `d`,
/// decided by the windings of the four triples that the end points form.
pub open spec fn segments_meet(a: Point, b: Point, c: Point, d: Point) -> bool {
    let o1 = spec_orientation(a, b, c);
    let o2 = spec_orientation(a, b, d);
    let o3 = spec_orientation(c, d, a);
    let o4 = spec_orientation(c, d, b);
    ||| (o1 != o2 && o3 != o4)
    ||| (o1 == 0 && spec_on_segment(a, c, b))
    ||| (o2 == 0 && spec_on_segment(a, d, b))
    ||| (o3 == 0 && spec_on_segment(c, a, d))
    ||| (o4 == 0 && spec_on_segment(c, b, d))
}

/// The far end of the ray that the hit test casts from a point.
pub open spec fn ray_end() -> Point {
    Point { x: 0, y: 0 }
}

/// Whether the edge from `a` to `b` meets the ray from `c` to `ray_end()`.
pub open spec fn spec_do_intersect(a: Point, b: Point, c: Point) -> bool {
    segments_meet(a, b, c, ray_end())
}

/// 1 when the edge from `a` to `b` meets the ray from `point`, else 0.
pub open spec fn edge_hit(a: Point, b: Point, point: Point) -> int {
    if spec_do_intersect(a, b, point) {
        1
    } else {
        0
    }
}

/// How many of the four edges of `quad`, walked in order and closed from the
/// last corner to the first, meet the ray from `point`.
pub open spec fn crossings(quad: Seq<Point>, point: Point) -> int
    recommends
        quad.len() == 4,
{
    edge_hit(quad[0], quad[1], point) + edge_hit(quad[1], quad[2], point) + edge_hit(
        quad[2],
        quad[3],
        point,
    ) + edge_hit(quad[3], quad[0], point)
}

/// The parity rule: `point` counts as inside `quad` when the ray from it meets
/// an odd number of edges. The ray ends at `ray_end()`, so the answer is that of
/// the geometric test only for a quad that does not enclose that point.
pub open spec fn point_in_quad(quad: Seq<Point>, point: Point) -> bool
    recommends
        quad.len() == 4,
{
    crossings(quad, point) % 2 == 1
}

pub fn on_segment(p: Point, q: Point, r: Point) -> (within: bool)
    ensures
        within == spec_on_segment(p, q, r),
{
    let max_x: i32 = if p.x >= r.x { p.x } else { r.x };
    let min_x: i32 = if p.x <= r.x { p.x } else { r.x };
    let max_y: i32 = if p.y >= r.y { p.y } else { r.y };
    let min_y: i32 = if p.y <= r.y { p.y } else { r.y };
    q.x <= max_x && q.x >= min_x && q.y <= max_y && q.y >= min_y
}

proof fn product_fits(a: int, b: int)
    requires
        -0x1_0000_0000 <= a <= 0x1_0000_0000,
        -0x1_0000_0000 <= b <= 0x1_0000_0000,
    ensures
        -0x1_0000_0000_0000_0000 <= a * b <= 0x1_0000_0000_0000_0000,
{
    assert(-0x1_0000_0000_0000_0000 <= a * b <= 0x1_0000_0000_0000_0000) by (nonlinear_arith)
        requires
            -0x1_0000_0000 <= a <= 0x1_0000_0000,
            -0x1_0000_0000 <= b <= 0x1_0000_0000,
    ;
}

/// The winding of three points: 0 on one line, 1 or 2 for the two turns. The
/// products are formed in 128 bits, so the sign is that of the exact value.
pub fn orientation(p: Point, q: Point, r: Point) -> (o: i8)
    ensures
        o == spec_orientation(p, q, r),
{
    let a: i128 = (q.y as i64 - p.y as i64) as i128;
    let b: i128 = (r.x as i64 - q.x as i64) as i128;
    let c: i128 = (q.x as i64 - p.x as i64) as i128;
    let d: i128 = (r.y as i64 - q.y as i64) as i128;
    proof {
        product_fits(a as int, b as int);
        product_fits(c as int, d as int);
    }
    let dot: i128 = a * b - c * d;
    if dot == 0 {
        0
    } else if dot > 0 {
        1
    } else {
        2
    }
}

/// Whether the edge from `a` to `b` meets the ray cast from `c`.
pub fn do_intersect(a: Point, b: Point, c: Point) -> (meets: bool)
    ensures
        meets == spec_do_intersect(a, b, c),
{
    let d = Point { x: 0, y: 0 };

    let o1 = orientation(a, b, c);
    let o2 = orientation(a, b, d);
    let o3 = orientation(c, d, a);
    let o4 = orientation(c, d, b);

    if o1 != o2 && o3 != o4 {
        return true;
    }
    if o1 == 0 && on_segment(a, c, b) {
        return true;
    }
    if o2 == 0 && on_segment(a, d, b) {
        return true;
    }
    if o3 == 0 && on_segment(c, a, d) {
        return true;
    }
    if o4 == 0 && on_segment(c, b, d) {
        return true;
    }
    false
}

/// The parity test on four ordered corners.
pub fn check_rect2(rect: [Point; 4], point: Point) -> (inside: bool)
    ensures
        inside == point_in_quad(rect@, point),
{
    let mut counter: u8 = 0;
    if do_intersect(rect[0], rect[1], point) {
        counter = counter + 1;
    }
    if do_intersect(rect[1], rect[2], point) {
        counter = counter + 1;
    }
    if do_intersect(rect[2], rect[3], point) {
        counter = counter + 1;
    }
    if do_intersect(rect[3], rect[0], point) {
        counter = counter + 1;
    }
    counter % 2 == 1
}

/// The parity test on the corners of an axis-aligned rectangle.
pub fn check_rect(rect: &Rect, point: Point) -> (inside: bool)
    ensures
        inside == point_in_quad(rect.spec_corners(), point),
{
    check_rect2(rect.corners(), point)
}

/// The 32-bit number nearest to `v`.
pub open spec fn saturate(v: int) -> int {
    if v > i32::MAX {
        i32::MAX as int
    } else if v < i32::MIN {
        i32::MIN as int
    } else {
        v
    }
}

fn saturate_wide(v: i64) -> (r: i32)
    ensures
        r == saturate(v as int),
{
    if v > i32::MAX as i64 {
        i32::MAX
    } else if v < i32::MIN as i64 {
        i32::MIN
    } else {
        v as i32
    }
}

/// How far `start` lies from `origin`, to the right and down.
pub open spec fn offset_from(start: Point, origin: Point) -> (i32, i32) {
    (saturate(start.x - origin.x) as i32, saturate(start.y - origin.y) as i32)
}

/// The point that lies `offset` from `origin`.
pub open spec fn offset_to(origin: Point, offset: (i32, i32)) -> Point {
    Point { x: saturate(origin.x + offset.0) as i32, y: saturate(origin.y + offset.1) as i32 }
}

/// Whether `turned` is a point that `start` can come to when `turn` turns it
/// about `origin` by `degrees`: `turn` takes the offset of `start` from
/// `origin` to that of `turned`.
pub open spec fn turned_about<F: Fn(i32, i32, Single) -> (i32, i32)>(
    turn: F,
    degrees: Single,
    start: Point,
    origin: Point,
    turned: Point,
) -> bool {
    exists|offset: (i32, i32)|
        call_ensures(
            turn,
            (offset_from(start, origin).0, offset_from(start, origin).1, degrees),
            offset,
        ) && turned == offset_to(origin, offset)
}

/// Turns `start` about `origin` by `degrees`. `turn` is the rotation: it takes
/// an offset from the pivot, to the right and down, and an angle to the offset
/// after the rotation, rounded to whole pixels. The point is moved so that the
/// pivot lies at the origin, turned, and moved back.
pub fn rotate_point<F: Fn(i32, i32, Single) -> (i32, i32)>(
    start: Point,
    origin: Point,
    degrees: Single,
    turn: &F,
) -> (turned: Point)
    requires
        forall|dx: i32, dy: i32, angle: Single| call_requires(*turn, (dx, dy, angle)),
    ensures
        turned_about(*turn, degrees, start, origin, turned),
{
    let dx = saturate_wide(start.x as i64 - origin.x as i64);
    let dy = saturate_wide(start.y as i64 - origin.y as i64);
    let offset = turn(dx, dy, degrees);
    let turned = Point {
        x: saturate_wide(origin.x as i64 + offset.0 as i64),
        y: saturate_wide(origin.y as i64 + offset.1 as i64),
    };
    assert(call_ensures(
        *turn,
        (offset_from(start, origin).0, offset_from(start, origin).1, degrees),
        offset,
    ) && turned == offset_to(origin, offset));
    turned
}

/// The pivot about which a rectangle is turned: `(across, down)` from its
/// top-left corner, where these are half the width and half the height at
/// which the rectangle is drawn.
pub open spec fn pivot(rect: Rect, across: int, down: int) -> Point {
    rect.spec_top_left().spec_offset(clamp_position(across), clamp_position(down))
}

/// The corners of the rectangle as it is drawn before it is turned: it keeps
/// its top-left corner and is `width` wide and `height` high. The corners
/// stand in the order top-left, top-right, bottom-right, bottom-left.
pub open spec fn unturned(rect: Rect, width: int, height: int) -> Seq<Point> {
    let corner = rect.spec_top_left();
    seq![
        corner,
        corner.spec_offset(clamp_position(width), 0),
        corner.spec_offset(clamp_position(width), clamp_position(height)),
        corner.spec_offset(0, clamp_position(height)),
    ]
}

/// Whether `quad` holds corners that `rect` can have when it is drawn at
/// `scale` and turned by `rotation` about the middle of what is drawn.
/// `extent` gives for a side of the rectangle the half and the whole of the
/// length at which it is drawn. The pivot lies half the drawn width and half
/// the drawn height from the top-left corner of the rectangle, which stays
/// where it is when the rectangle is scaled; each corner of the drawn
/// rectangle is turned about the pivot.
pub open spec fn outlines<E: Fn(u32, Single) -> (i32, i32), F: Fn(i32, i32, Single) -> (i32, i32)>(
    extent: E,
    turn: F,
    rect: Rect,
    rotation: Single,
    scale: Single,
    quad: Seq<Point>,
) -> bool {
    exists|across: (i32, i32), down: (i32, i32)|
        call_ensures(extent, (rect.w, scale), across) && call_ensures(
            extent,
            (rect.h, scale),
            down,
        ) && quad.len() == 4 && forall|k: int|
            0 <= k < 4 ==> turned_about(
                turn,
                rotation,
                unturned(rect, across.1 as int, down.1 as int)[k],
                pivot(rect, across.0 as int, down.0 as int),
                #[trigger] quad[k],
            )
}

/// The corners of a rectangle that is drawn at `scale` and turned by
/// `rotation` about the middle of what is drawn, in the order top-left,
/// top-right, bottom-right, bottom-left: the order in which the hit test and
/// the outline walk them. `extent` is the scaling: it takes a length and a
/// scale to half the length times the scale and to the length times the
/// scale, each rounded to whole pixels. `turn` is the rotation, as for
/// `rotate_point`.
pub fn rotate_rectangle<E: Fn(u32, Single) -> (i32, i32), F: Fn(i32, i32, Single) -> (i32, i32)>(
    active_rect: Rect,
    rotation: Single,
    scale: Single,
    extent: &E,
    turn: &F,
) -> (quad: [Point; 4])
    requires
        forall|length: u32, factor: Single| call_requires(*extent, (length, factor)),
        forall|dx: i32, dy: i32, angle: Single| call_requires(*turn, (dx, dy, angle)),
    ensures
        outlines(*extent, *turn, active_rect, rotation, scale, quad@),
{
    let across = extent(active_rect.width(), scale);
    let down = extent(active_rect.height(), scale);
    let corner = active_rect.top_left();
    let temp_center = corner.plus(Point::new(across.0, down.0));
    let top_left = rotate_point(corner, temp_center, rotation, turn);
    let top_right = rotate_point(corner.plus(Point::new(across.1, 0)), temp_center, rotation, turn);
    let bottom_left = rotate_point(corner.plus(Point::new(0, down.1)), temp_center, rotation, turn);
    let bottom_right = rotate_point(
        corner.plus(Point::new(across.1, down.1)),
        temp_center,
        rotation,
        turn,
    );
    let quad = [top_left, top_right, bottom_right, bottom_left];
    assert(call_ensures(*extent, (active_rect.w, scale), across) && call_ensures(
        *extent,
        (active_rect.h, scale),
        down,
    ) && quad@.len() == 4 && forall|k: int|
        0 <= k < 4 ==> turned_about(
            *turn,
            rotation,
            unturned(active_rect, across.1 as int, down.1 as int)[k],
            pivot(active_rect, across.0 as int, down.0 as int),
            #[trigger] quad@[k],
        ));
    quad
}

/// A point turned about itself stays where it is, whatever the angle: a
/// rotation leaves the offset `(0, 0)` as it is.
pub proof fn lemma_rotate_about_itself<F: Fn(i32, i32, Single) -> (i32, i32)>(
    turn: F,
    degrees: Single,
    p: Point,
    turned: Point,
)
    requires
        forall|offset: (i32, i32)|
            call_ensures(turn, (0i32, 0i32, degrees), offset) ==> offset == (0i32, 0i32),
        turned_about(turn, degrees, p, p, turned),
    ensures
        turned == p,
{
    let offset = choose|offset: (i32, i32)|
        call_ensures(turn, (offset_from(p, p).0, offset_from(p, p).1, degrees), offset) && turned
            == offset_to(p, offset);
    assert(offset_from(p, p) == (0i32, 0i32));
}

/// A rectangle turned by 0 degrees is the rectangle as it is drawn: upright,
/// with its top-left corner where it was and with the width and the height
/// that the scaling gives. This holds of a rotation that leaves every offset
/// as it is when the angle is 0.
pub proof fn lemma_rotate_rectangle_by_zero<
    E: Fn(u32, Single) -> (i32, i32),
    F: Fn(i32, i32, Single) -> (i32, i32),
>(extent: E, turn: F, rect: Rect, scale: Single, quad: Seq<Point>)
    requires
        forall|dx: i32, dy: i32, to: (i32, i32)|
            call_ensures(turn, (dx, dy, Single::spec_zero()), to) ==> to == (dx, dy),
        outlines(extent, turn, rect, Single::spec_zero(), scale, quad),
    ensures
        exists|across: (i32, i32), down: (i32, i32)|
            call_ensures(extent, (rect.w, scale), across) && call_ensures(
                extent,
                (rect.h, scale),
                down,
            ) && quad == unturned(rect, across.1 as int, down.1 as int),
        quad[0] == rect.spec_top_left(),
        quad[1].y == quad[0].y,
        quad[2].x == quad[1].x,
        quad[3].y == quad[2].y,
        quad[0].x == quad[3].x,
{
    let (across, down) = choose|across: (i32, i32), down: (i32, i32)|
        call_ensures(extent, (rect.w, scale), across) && call_ensures(
            extent,
            (rect.h, scale),
            down,
        ) && quad.len() == 4 && forall|k: int|
            0 <= k < 4 ==> turned_about(
                turn,
                Single::spec_zero(),
                unturned(rect, across.1 as int, down.1 as int)[k],
                pivot(rect, across.0 as int, down.0 as int),
                #[trigger] quad[k],
            );
    let origin = pivot(rect, across.0 as int, down.0 as int);
    let corners = unturned(rect, across.1 as int, down.1 as int);
    assert forall|k: int| 0 <= k < 4 implies quad[k] == corners[k] by {
        let start = corners[k];
        assert(turned_about(turn, Single::spec_zero(), start, origin, quad[k]));
        let offset = choose|offset: (i32, i32)|
            call_ensures(
                turn,
                (offset_from(start, origin).0, offset_from(start, origin).1, Single::spec_zero()),
                offset,
            ) && quad[k] == offset_to(origin, offset);
        assert(offset == offset_from(start, origin));
    }
    assert(quad =~= corners);
}

/// Whether `rect` stands upright in the quarter of the plane right of and
/// below the far end of the ray, apart from it, with all its corners in the
/// coordinate range.
pub open spec fn clear_of_ray_end(rect: Rect) -> bool {
    &&& 0 < rect.x
    &&& 0 < rect.y
    &&& 0 < rect.w
    &&& 0 < rect.h
    &&& rect.x + rect.w <= MAX_COORD
    &&& rect.y + rect.h <= MAX_COORD
}

/// The sign of a product of two numbers that are not zero.
proof fn lemma_product_sign(a: int, b: int)
    ensures
        a > 0 && b > 0 ==> a * b > 0,
        a < 0 && b < 0 ==> a * b > 0,
        a > 0 && b < 0 ==> a * b < 0,
        a < 0 && b > 0 ==> a * b < 0,
        a == 0 || b == 0 ==> a * b == 0,
{
    assert(a > 0 && b > 0 ==> a * b > 0) by (nonlinear_arith);
    assert(a < 0 && b < 0 ==> a * b > 0) by (nonlinear_arith);
    assert(a > 0 && b < 0 ==> a * b < 0) by (nonlinear_arith);
    assert(a < 0 && b > 0 ==> a * b < 0) by (nonlinear_arith);
    assert(a == 0 || b == 0 ==> a * b == 0) by (nonlinear_arith);
}

/// A product grows with its factors.
proof fn lemma_product_order(a: int, b: int, c: int, d: int)
    requires
        0 <= a < c,
        0 < b <= d,
    ensures
        a * b < c * d,
{
    assert(a * b < c * d) by (nonlinear_arith)
        requires
            0 <= a < c,
            0 < b <= d,
    ;
}

/// An edge that stands upright at `x` is not met by a ray that stays left of
/// it.
proof fn lemma_ray_left_of_upright_edge(a: Point, b: Point, p: Point)
    requires
        a.x == b.x,
        0 <= p.x < a.x,
    ensures
        !spec_do_intersect(a, b, p),
{
    let tip = ray_end();
    lemma_product_sign(b.y - a.y, p.x - b.x);
    lemma_product_sign(b.x - a.x, p.y - b.y);
    lemma_product_sign(b.y - a.y, tip.x - b.x);
    lemma_product_sign(b.x - a.x, tip.y - b.y);
    assert(spec_orientation(a, b, p) == spec_orientation(a, b, tip));
}

/// An edge that lies level at `y` is not met by a ray that stays above it.
proof fn lemma_ray_above_level_edge(a: Point, b: Point, p: Point)
    requires
        a.y == b.y,
        0 <= p.y < a.y,
    ensures
        !spec_do_intersect(a, b, p),
{
    let tip = ray_end();
    lemma_product_sign(b.y - a.y, p.x - b.x);
    lemma_product_sign(b.x - a.x, p.y - b.y);
    lemma_product_sign(b.y - a.y, tip.x - b.x);
    lemma_product_sign(b.x - a.x, tip.y - b.y);
    assert(spec_orientation(a, b, p) == spec_orientation(a, b, tip));
}

/// The side of the ray from `p` on which the point `(x, y)` lies.
proof fn lemma_side_of_ray(p: Point, x: int, y: int)
    requires
        i32::MIN <= x <= i32::MAX,
        i32::MIN <= y <= i32::MAX,
    ensures
        cross(p, ray_end(), Point { x: x as i32, y: y as i32 }) == p.x * y - p.y * x,
{
    let tip = ray_end();
    let r = Point { x: x as i32, y: y as i32 };
    assert((tip.y - p.y) * (r.x - tip.x) - (tip.x - p.x) * (r.y - tip.y) == p.x * y - p.y * x)
        by (nonlinear_arith)
        requires
            tip.x == 0,
            tip.y == 0,
            r.x == x,
            r.y == y,
    ;
}

/// An edge that lies level at `y`, right of a ray that starts left of it, is
/// not met by the ray.
proof fn lemma_ray_left_of_level_edge(a: Point, b: Point, p: Point)
    requires
        a.y == b.y,
        0 < a.y,
        0 <= p.x < a.x,
        0 <= p.x < b.x,
        0 <= p.y,
    ensures
        !spec_do_intersect(a, b, p),
{
    if p.y < a.y {
        lemma_ray_above_level_edge(a, b, p);
    } else {
        lemma_side_of_ray(p, a.x as int, a.y as int);
        lemma_side_of_ray(p, b.x as int, b.y as int);
        lemma_product_order(p.x as int, a.y as int, a.x as int, p.y as int);
        lemma_product_order(p.x as int, b.y as int, b.x as int, p.y as int);
        assert(p.x * a.y < p.y * a.x) by (nonlinear_arith)
            requires
                p.x * a.y < a.x * p.y,
        ;
        assert(p.x * b.y < p.y * b.x) by (nonlinear_arith)
            requires
                p.x * b.y < b.x * p.y,
        ;
        assert(spec_orientation(p, ray_end(), a) == 2);
        assert(spec_orientation(p, ray_end(), b) == 2);
    }
}

/// An edge that stands upright at `x`, below a ray that starts above it, is
/// not met by the ray.
proof fn lemma_ray_above_upright_edge(a: Point, b: Point, p: Point)
    requires
        a.x == b.x,
        0 < a.x,
        0 <= p.y < a.y,
        0 <= p.y < b.y,
        0 <= p.x,
    ensures
        !spec_do_intersect(a, b, p),
{
    if p.x < a.x {
        lemma_ray_left_of_upright_edge(a, b, p);
    } else {
        lemma_side_of_ray(p, a.x as int, a.y as int);
        lemma_side_of_ray(p, b.x as int, b.y as int);
        lemma_product_order(p.y as int, a.x as int, a.y as int, p.x as int);
        lemma_product_order(p.y as int, b.x as int, b.y as int, p.x as int);
        assert(p.x * a.y > p.y * a.x) by (nonlinear_arith)
            requires
                p.y * a.x < a.y * p.x,
        ;
        assert(p.x * b.y > p.y * b.x) by (nonlinear_arith)
            requires
                p.y * b.x < b.y * p.x,
        ;
        assert(spec_orientation(p, ray_end(), a) == 1);
        assert(spec_orientation(p, ray_end(), b) == 1);
    }
}

/// A click that lies left of an upright rectangle or above it, between the
/// rectangle and the far end of the ray, is outside the rectangle.
pub proof fn lemma_click_before_rect_misses(rect: Rect, point: Point)
    requires
        clear_of_ray_end(rect),
        0 <= point.x,
        0 <= point.y,
        point.x < rect.x || point.y < rect.y,
    ensures
        !point_in_quad(rect.spec_corners(), point),
{
    let quad = rect.spec_corners();
    if point.x < rect.x {
        lemma_ray_left_of_level_edge(quad[0], quad[1], point);
        lemma_ray_left_of_upright_edge(quad[1], quad[2], point);
        lemma_ray_left_of_level_edge(quad[2], quad[3], point);
        lemma_ray_left_of_upright_edge(quad[3], quad[0], point);
    } else {
        lemma_ray_above_level_edge(quad[0], quad[1], point);
        lemma_ray_above_upright_edge(quad[1], quad[2], point);
        lemma_ray_above_level_edge(quad[2], quad[3], point);
        lemma_ray_above_upright_edge(quad[3], quad[0], point);
    }
}

/// A click strictly inside an upright rectangle is inside it by the parity
/// rule too, unless the ray from the click runs through the top-left corner of
/// the rectangle: there it meets two edges at once, and the click counts as
/// outside.
pub proof fn lemma_click_inside_rect(rect: Rect, point: Point)
    requires
        clear_of_ray_end(rect),
        rect.x < point.x < rect.x + rect.w,
        rect.y < point.y < rect.y + rect.h,
    ensures
        point_in_quad(rect.spec_corners(), point) == (point.x * rect.y != point.y * rect.x),
{
    let quad = rect.spec_corners();
    let tip = ray_end();
    let x0 = rect.x as int;
    let y0 = rect.y as int;
    let x1 = rect.x + rect.w;
    let y1 = rect.y + rect.h;
    let px = point.x as int;
    let py = point.y as int;
    let d = px * y0 - py * x0;
    assert(quad[0] == Point { x: x0 as i32, y: y0 as i32 });
    assert(quad[1] == Point { x: x1 as i32, y: y0 as i32 });
    assert(quad[2] == Point { x: x1 as i32, y: y1 as i32 });
    assert(quad[3] == Point { x: x0 as i32, y: y1 as i32 });
    lemma_side_of_ray(point, x0, y0);
    lemma_side_of_ray(point, x1, y0);
    lemma_side_of_ray(point, x1, y1);
    lemma_side_of_ray(point, x0, y1);
    // The corners other than the top-left one lie on known sides of the ray.
    lemma_product_order(px, y0, x1, py);
    assert(px * y0 - py * x1 < 0) by (nonlinear_arith)
        requires
            px * y0 < x1 * py,
    ;
    lemma_product_order(py, x0, y1, px);
    assert(px * y1 - py * x0 > 0) by (nonlinear_arith)
        requires
            py * x0 < y1 * px,
    ;
    // The right and the bottom edge lie beyond the start of the ray.
    assert(!spec_do_intersect(quad[1], quad[2], point)) by {
        lemma_product_sign(y1 - y0, px - x1);
        lemma_product_sign(y1 - y0, -x1);
        lemma_product_sign(0, py - y1);
        lemma_product_sign(0, -y1);
        assert(cross(quad[1], quad[2], point) == (y1 - y0) * (px - x1) - 0 * (py - y1));
        assert(cross(quad[1], quad[2], tip) == (y1 - y0) * (-x1) - 0 * (-y1));
    }
    assert(!spec_do_intersect(quad[2], quad[3], point)) by {
        lemma_product_sign(x0 - x1, py - y1);
        lemma_product_sign(x0 - x1, -y1);
        lemma_product_sign(0, px - x0);
        lemma_product_sign(0, -x0);
        assert(cross(quad[2], quad[3], point) == 0 * (px - x0) - (x0 - x1) * (py - y1));
        assert(cross(quad[2], quad[3], tip) == 0 * (-x0) - (x0 - x1) * (-y1));
    }
    // The top edge is met where the top-left corner lies on the one side of
    // the ray or on it, the left edge where it lies on the other or on it.
    assert(spec_do_intersect(quad[0], quad[1], point) == (d >= 0)) by {
        lemma_product_sign(x1 - x0, py - y0);
        lemma_product_sign(x1 - x0, -y0);
        lemma_product_sign(0, px - x1);
        lemma_product_sign(0, -x1);
        assert(cross(quad[0], quad[1], point) == 0 * (px - x1) - (x1 - x0) * (py - y0));
        assert(cross(quad[0], quad[1], tip) == 0 * (-x1) - (x1 - x0) * (-y0));
        assert(spec_orientation(quad[0], quad[1], point) == 2);
        assert(spec_orientation(quad[0], quad[1], tip) == 1);
        assert(spec_orientation(point, tip, quad[1]) == 2);
        assert(cross(point, tip, quad[0]) == d);
    }
    assert(spec_do_intersect(quad[3], quad[0], point) == (d <= 0)) by {
        lemma_product_sign(y0 - y1, px - x0);
        lemma_product_sign(y0 - y1, -x0);
        lemma_product_sign(0, py - y0);
        lemma_product_sign(0, -y0);
        assert(cross(quad[3], quad[0], point) == (y0 - y1) * (px - x0) - 0 * (py - y0));
        assert(cross(quad[3], quad[0], tip) == (y0 - y1) * (-x0) - 0 * (-y0));
        assert(spec_orientation(quad[3], quad[0], point) == 2);
        assert(spec_orientation(quad[3], quad[0], tip) == 1);
        assert(spec_orientation(point, tip, quad[3]) == 1);
        assert(cross(point, tip, quad[0]) == d);
    }
    assert(d == 0 <==> px * y0 == py * x0);
}

} // verus!
