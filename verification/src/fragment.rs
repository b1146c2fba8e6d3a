//! What the scene is made of: the background sheet and the doodads on it.
//!
//! Both are fragments: things with a placement, a scale, a rotation and a
//! current frame. The sheet has one placement for all frames and shows another
//! tile of its image in each frame. A doodad has a placement and a rotation of
//! its own for each frame.

use crate::codec::{
    bracket_line, brackets_text, column_line, doodad_line, dotted, frames_text, header_prefix,
    push_frame, push_header_prefix, DoodadRecord, DoodadRecordView, FrameView,
};
use crate::decimal::{decimal_int, push_i32};
use crate::mymath::{clamp_position, clamp_wide, Point, Rect};
use crate::number::{Double, Single};
use vstd::prelude::*;
use vstd::string::StringExecFns;

verus! {

/// The coordinate that the draw position starts from: 1 stands in for 0.
pub open spec fn guard_zero(v: int) -> int {
    if v != 0 {
        v
    } else {
        1
    }
}

/// A coordinate after a shift by `d` that is held back at the near edge: a
/// shift that would take the coordinate below 0 does not apply, unless the
/// shift itself is positive.
pub open spec fn guarded_shift(v: int, d: int) -> int {
    if d > 0 || v + d >= 0 {
        v + d
    } else {
        v
    }
}

/// Whether `v` is a value of a signed 32-bit coordinate.
pub open spec fn fits(v: int) -> bool {
    i32::MIN <= v <= i32::MAX
}

/// `rect` with its origin moved to `(x, y)`.
pub open spec fn moved_to(rect: Rect, x: int, y: int) -> Rect {
    Rect { x: x as i32, y: y as i32, ..rect }
}

fn sum_fits(v: i32, d: i32) -> (ok: bool)
    ensures
        ok == fits(v + d),
{
    let sum: i64 = v as i64 + d as i64;
    i32::MIN as i64 <= sum && sum <= i32::MAX as i64
}

fn guarded_fits(v: i32, d: i32) -> (ok: bool)
    ensures
        ok == fits(guarded_shift(v as int, d as int)),
{
    let sum: i64 = v as i64 + d as i64;
    if d > 0 || sum >= 0 {
        sum <= i32::MAX as i64
    } else {
        true
    }
}

/// The coordinate `v` after the guarded shift by `d`.
fn guarded(v: i32, d: i32) -> (r: i32)
    requires
        fits(guarded_shift(v as int, d as int)),
    ensures
        r == guarded_shift(v as int, d as int),
{
    let sum: i64 = v as i64 + d as i64;
    if d > 0 || sum >= 0 {
        sum as i32
    } else {
        v
    }
}

/// `frames` brought to `n` entries: the first entries stay, and each new entry
/// is a copy of entry 0.
pub open spec fn resized<T>(frames: Seq<T>, n: nat) -> Seq<T> {
    Seq::new(
        n,
        |i: int|
            if i < frames.len() {
                frames[i]
            } else {
                frames[0]
            },
    )
}

/// Whether `rect` is a rectangle at which a fragment with the placement
/// `placement` is drawn at the scale `scale`: its origin is that of the
/// placement, with 1 in the place of a coordinate that is 0, divided by the
/// scale, and its size is that of the placement, which the scale does not
/// change: the size of a placement is in range.
pub open spec fn drawn_at<F: Fn(i32, Single) -> i32>(
    divide: F,
    placement: Rect,
    scale: Single,
    rect: Rect,
) -> bool {
    exists|x: i32, y: i32|
        call_ensures(divide, (guard_zero(placement.x as int) as i32, scale), x) && call_ensures(
            divide,
            (guard_zero(placement.y as int) as i32, scale),
            y,
        ) && rect == Rect::spec_new(x as int, y as int, placement.w as int, placement.h as int)
}

fn draw_rect<F: Fn(i32, Single) -> i32>(placement: Rect, scale: Single, divide: &F) -> (rect: Rect)
    requires
        forall|v: i32, scale: Single| call_requires(*divide, (v, scale)),
    ensures
        drawn_at(*divide, placement, scale, rect),
        placement.sized() ==> rect.w == placement.w && rect.h == placement.h,
{
    let tempx = divide(
        if placement.x != 0 {
            placement.x
        } else {
            1
        },
        scale,
    );
    let tempy = divide(
        if placement.y != 0 {
            placement.y
        } else {
            1
        },
        scale,
    );
    let rect = Rect::new(tempx, tempy, placement.width(), placement.height());
    assert(call_ensures(*divide, (guard_zero(placement.x as int) as i32, scale), tempx)
        && call_ensures(*divide, (guard_zero(placement.y as int) as i32, scale), tempy) && rect
        == Rect::spec_new(tempx as int, tempy as int, placement.w as int, placement.h as int));
    rect
}

/// What a fragment offers to the editor and the renderer.
pub trait Fragment {
    /// Whether the fragment's parts fit together.
    spec fn valid(&self) -> bool;

    /// How many frames the fragment has.
    spec fn frame_count(&self) -> nat;

    /// The frame that is shown and edited.
    spec fn current_frame(&self) -> nat;

    /// The placement in the current frame.
    spec fn placement(&self) -> Rect;

    /// The rotation in the current frame.
    spec fn rotation(&self) -> Double;

    /// The scale, one for all frames.
    spec fn scale(&self) -> Single;

    /// The part of the image that is drawn.
    spec fn source(&self) -> Rect;

    /// Where `change_position` takes the origin of the current placement.
    spec fn shifted(&self, dx: int, dy: int) -> (int, int);

    /// The rectangle at which the renderer, which draws at the fragment's
    /// scale, is to draw the fragment. `divide` is the division of a coordinate
    /// by a scale, rounded to whole pixels.
    fn draw_position<F: Fn(i32, Single) -> i32>(&self, divide: &F) -> (rect: Rect)
        requires
            self.valid(),
            forall|v: i32, scale: Single| call_requires(*divide, (v, scale)),
        ensures
            drawn_at(*divide, self.placement(), self.scale(), rect),
            rect.w == self.placement().w,
            rect.h == self.placement().h,
    ;

    /// The current placement, as stored.
    fn real_position(&self) -> (rect: Rect)
        requires
            self.valid(),
        ensures
            rect == self.placement(),
    ;

    /// Whether `change_position` can move by `(dx, dy)`: whether the
    /// coordinates that it would give are coordinates still.
    fn can_change_position(&self, diff_x: i32, diff_y: i32) -> (ok: bool)
        requires
            self.valid(),
        ensures
            ok == (fits(self.shifted(diff_x as int, diff_y as int).0) && fits(
                self.shifted(diff_x as int, diff_y as int).1,
            )),
    ;

    /// Moves the current placement by `(dx, dy)`.
    fn change_position(&mut self, diff_x: i32, diff_y: i32)
        requires
            old(self).valid(),
            fits(old(self).shifted(diff_x as int, diff_y as int).0),
            fits(old(self).shifted(diff_x as int, diff_y as int).1),
        ensures
            final(self).valid(),
            final(self).placement() == moved_to(
                old(self).placement(),
                old(self).shifted(diff_x as int, diff_y as int).0,
                old(self).shifted(diff_x as int, diff_y as int).1,
            ),
            final(self).frame_count() == old(self).frame_count(),
            final(self).current_frame() == old(self).current_frame(),
            final(self).rotation() == old(self).rotation(),
            final(self).scale() == old(self).scale(),
            final(self).source() == old(self).source(),
    ;

    /// Sets the rotation in the current frame.
    fn set_rotation(&mut self, rotation: Double)
        requires
            old(self).valid(),
        ensures
            final(self).valid(),
            final(self).rotation() == rotation,
            final(self).placement() == old(self).placement(),
            final(self).frame_count() == old(self).frame_count(),
            final(self).current_frame() == old(self).current_frame(),
            final(self).scale() == old(self).scale(),
            final(self).source() == old(self).source(),
    ;

    /// Sets the scale, for all frames.
    fn set_scale(&mut self, scale: Single)
        requires
            old(self).valid(),
        ensures
            final(self).valid(),
            final(self).scale() == scale,
            final(self).placement() == old(self).placement(),
            final(self).frame_count() == old(self).frame_count(),
            final(self).current_frame() == old(self).current_frame(),
            final(self).rotation() == old(self).rotation(),
            final(self).source() == old(self).source(),
    ;

    fn get_source_rect(&self) -> (rect: Rect)
        requires
            self.valid(),
        ensures
            rect == self.source(),
    ;

    fn get_rotation(&self) -> (rotation: Double)
        requires
            self.valid(),
        ensures
            rotation == self.rotation(),
    ;

    fn get_scale(&self) -> (scale: Single)
        requires
            self.valid(),
        ensures
            scale == self.scale(),
    ;

    /// Makes frame `frame_number` the current one, counting round from the
    /// first frame again after the last.
    fn set_frame(&mut self, frame_number: usize)
        requires
            old(self).valid(),
        ensures
            final(self).valid(),
            final(self).frame_count() == old(self).frame_count(),
            final(self).current_frame() == frame_number as nat % old(self).frame_count(),
            final(self).scale() == old(self).scale(),
    ;
}

/// The background sheet as the contracts see it.
pub struct SheetView {
    pub name: Seq<char>,
    /// The tile of the image that the current frame shows.
    pub source_rect: Rect,
    /// The width of one tile.
    pub frame_width: nat,
    pub position: Rect,
    pub scale: Single,
    pub rotation: Double,
    pub frame_count: nat,
    pub current: nat,
}

impl SheetView {
    /// The sheet has a frame, the current frame is one of its frames, the tile
    /// shown is that of the current frame, and the sizes of its rectangles are
    /// in range.
    pub open spec fn wf(self) -> bool {
        &&& 0 < self.frame_count <= usize::MAX
        &&& self.current < self.frame_count
        &&& self.source_rect.x == clamp_position((self.current * self.frame_width) as int)
        &&& self.source_rect.sized()
        &&& self.position.sized()
    }
}

/// The animated sheet behind the doodads: an image of `frame_count` tiles of
/// equal width, side by side.
pub struct Spritesheet {
    name: String,
    source_rect: Rect,
    frame_width: u32,
    position: Rect,
    scale: Single,
    rotation: Double,
    frame_count: usize,
    current: usize,
}

impl View for Spritesheet {
    type V = SheetView;

    closed spec fn view(&self) -> SheetView {
        SheetView {
            name: self.name@,
            source_rect: self.source_rect,
            frame_width: self.frame_width as nat,
            position: self.position,
            scale: self.scale,
            rotation: self.rotation,
            frame_count: self.frame_count as nat,
            current: self.current as nat,
        }
    }
}

impl Spritesheet {
    pub open spec fn wf(&self) -> bool {
        self@.wf()
    }

    /// A sheet named `name` for an image of `width` by `height` pixels that
    /// holds `frame_count` tiles, placed at `(x_pos, y_pos)`. It starts at
    /// frame 0 with scale 1 and rotation 0. A tile is `width / frame_count`
    /// pixels wide, rounded down.
    pub fn new(
        name: String,
        width: u32,
        height: u32,
        x_pos: i32,
        y_pos: i32,
        frame_count: usize,
    ) -> (sheet: Spritesheet)
        requires
            frame_count > 0,
        ensures
            sheet.wf(),
            sheet@ == (SheetView {
                name: name@,
                source_rect: Rect::spec_new(
                    0,
                    0,
                    (width as int) / (frame_count as int),
                    height as int,
                ),
                frame_width: ((width as int) / (frame_count as int)) as nat,
                position: Rect::spec_new(
                    x_pos as int,
                    y_pos as int,
                    (width as int) / (frame_count as int),
                    height as int,
                ),
                scale: Single::spec_one(),
                rotation: Double::spec_zero(),
                frame_count: frame_count as nat,
                current: 0,
            }),
    {
        let tile: u32 = if frame_count > u32::MAX as usize {
            proof {
                assert((width as int) / (frame_count as int) == 0) by (nonlinear_arith)
                    requires
                        0 <= width < frame_count,
                ;
            }
            0
        } else {
            width / (frame_count as u32)
        };
        Spritesheet {
            name,
            source_rect: Rect::new(0, 0, tile, height),
            frame_width: tile,
            position: Rect::new(x_pos, y_pos, tile, height),
            scale: Single::one(),
            rotation: Double::zero(),
            frame_count,
            current: 0,
        }
    }

    fn update_frame(&mut self)
        ensures
            final(self)@ == (SheetView {
                source_rect: Rect {
                    x: clamp_position((old(self)@.current * old(self)@.frame_width) as int) as i32,
                    ..old(self)@.source_rect
                },
                ..old(self)@
            }),
    {
        assert(self.current * self.frame_width <= 0xffff_ffff_ffff_ffff * 0xffff_ffff)
            by (nonlinear_arith)
            requires
                0 <= self.current <= 0xffff_ffff_ffff_ffff,
                0 <= self.frame_width <= 0xffff_ffff,
        ;
        let offset: u128 = (self.current as u128) * (self.frame_width as u128);
        let x: i32 = if offset > crate::mymath::MAX_COORD as u128 {
            crate::mymath::MAX_COORD
        } else {
            offset as i32
        };
        self.source_rect.set_x(x);
    }

    /// The start of the first line of a saved scene: `name;frames;`.
    pub fn serialize(&self) -> (text: String)
        ensures
            text@ == header_prefix(self@.name, self@.frame_count as usize),
    {
        let mut temp = String::new();
        push_header_prefix(&mut temp, self.name.as_str(), self.frame_count);
        assert(temp@ =~= header_prefix(self@.name, self@.frame_count as usize));
        temp
    }

    pub fn get_frames_amount(&self) -> (frames: usize)
        ensures
            frames == self@.frame_count,
    {
        self.frame_count
    }

    pub fn name(&self) -> (name: &String)
        ensures
            name@ == self@.name,
    {
        &self.name
    }

    pub fn current_frame_index(&self) -> (current: usize)
        ensures
            current == self@.current,
    {
        self.current
    }
}

impl Fragment for Spritesheet {
    open spec fn valid(&self) -> bool {
        self@.wf()
    }

    open spec fn frame_count(&self) -> nat {
        self@.frame_count
    }

    open spec fn current_frame(&self) -> nat {
        self@.current
    }

    open spec fn placement(&self) -> Rect {
        self@.position
    }

    open spec fn rotation(&self) -> Double {
        self@.rotation
    }

    open spec fn scale(&self) -> Single {
        self@.scale
    }

    open spec fn source(&self) -> Rect {
        self@.source_rect
    }

    open spec fn shifted(&self, dx: int, dy: int) -> (int, int) {
        (guarded_shift(self@.position.x as int, dx), guarded_shift(self@.position.y as int, dy))
    }

    fn draw_position<F: Fn(i32, Single) -> i32>(&self, divide: &F) -> (rect: Rect) {
        draw_rect(self.position, self.scale, divide)
    }

    fn real_position(&self) -> (rect: Rect) {
        self.position
    }

    fn can_change_position(&self, diff_x: i32, diff_y: i32) -> (ok: bool) {
        guarded_fits(self.position.x, diff_x) && guarded_fits(self.position.y, diff_y)
    }

    /// Moves the sheet by `(dx, dy)`, each coordinate for itself: a move that
    /// would take a coordinate below 0 is left out, unless the amount is
    /// positive.
    fn change_position(&mut self, diff_x: i32, diff_y: i32)
        ensures
            final(self)@ == (SheetView {
                position: moved_to(
                    old(self)@.position,
                    guarded_shift(old(self)@.position.x as int, diff_x as int),
                    guarded_shift(old(self)@.position.y as int, diff_y as int),
                ),
                ..old(self)@
            }),
    {
        self.position.x = guarded(self.position.x, diff_x);
        self.position.y = guarded(self.position.y, diff_y);
    }

    fn set_rotation(&mut self, rotation: Double)
        ensures
            final(self)@ == (SheetView { rotation, ..old(self)@ }),
    {
        self.rotation = rotation;
    }

    fn set_scale(&mut self, scale: Single)
        ensures
            final(self)@ == (SheetView { scale, ..old(self)@ }),
    {
        self.scale = scale;
    }

    fn get_source_rect(&self) -> (rect: Rect) {
        self.source_rect
    }

    fn get_rotation(&self) -> (rotation: Double) {
        self.rotation
    }

    fn get_scale(&self) -> (scale: Single) {
        self.scale
    }

    /// Makes frame `frame_number % frame_count` the current one and moves the
    /// source rectangle to its tile, `current * frame_width` pixels from the
    /// left of the image, or to the largest coordinate if the tile lies
    /// beyond it.
    fn set_frame(&mut self, frame_number: usize)
        ensures
            (frame_number as nat % old(self)@.frame_count) * old(self)@.frame_width
                <= crate::mymath::MAX_COORD ==> final(self)@.source_rect.x == (frame_number as nat
                % old(self)@.frame_count) * old(self)@.frame_width,
            final(self)@ == (SheetView {
                current: frame_number as nat % old(self)@.frame_count,
                source_rect: Rect {
                    x: clamp_position(
                        ((frame_number as nat % old(self)@.frame_count)
                            * old(self)@.frame_width) as int,
                    ) as i32,
                    ..old(self)@.source_rect
                },
                ..old(self)@
            }),
    {
        self.current = frame_number % self.frame_count;
        self.update_frame();
    }
}

/// A doodad as the contracts see it.
pub struct DoodadView {
    pub name: Seq<char>,
    pub source_rect: Rect,
    /// The placement in each frame.
    pub positions: Seq<Rect>,
    pub scale: Single,
    /// The rotation in each frame.
    pub rotations: Seq<Double>,
    pub current: nat,
}

impl DoodadView {
    /// There is a placement and a rotation for each frame, the current frame
    /// is one of them, and the sizes of its rectangles are in range.
    pub open spec fn wf(self) -> bool {
        &&& self.positions.len() == self.rotations.len()
        &&& self.current < self.positions.len()
        &&& self.source_rect.sized()
        &&& forall|i: int| 0 <= i < self.positions.len() ==> (#[trigger] self.positions[i]).sized()
    }

    /// Whether the placement in every frame can move by `(dx, dy)`, held back
    /// at the near edge, and still have coordinates.
    pub open spec fn can_shift_all(self, dx: int, dy: int) -> bool {
        forall|i: int|
            0 <= i < self.positions.len() ==> fits(
                guarded_shift((#[trigger] self.positions[i]).x as int, dx),
            ) && fits(guarded_shift(self.positions[i].y as int, dy))
    }

    /// How far the placement in frame `i` lies from `origin`.
    pub open spec fn offset(self, origin: Point, i: int) -> Point {
        self.positions[i].spec_top_left().spec_offset(-(origin.x as int), -(origin.y as int))
    }

    /// The frames as a saved scene holds them, measured from `origin`, with
    /// `rotations[i]` as the text of the rotation in frame `i`.
    pub open spec fn frames(self, origin: Point, rotations: Seq<Seq<char>>) -> Seq<FrameView> {
        Seq::new(
            self.positions.len(),
            |i: int|
                FrameView {
                    dx: self.offset(origin, i).x,
                    dy: self.offset(origin, i).y,
                    rotation: rotations[i],
                },
        )
    }

    /// The doodad as a saved scene holds it.
    pub open spec fn record(
        self,
        origin: Point,
        scale: Seq<char>,
        rotations: Seq<Seq<char>>,
    ) -> DoodadRecordView {
        DoodadRecordView { name: self.name, scale, frames: self.frames(origin, rotations) }
    }
}

/// A movable element with a placement and a rotation for each frame.
pub struct Doodad {
    name: String,
    source_rect: Rect,
    positions: Vec<Rect>,
    scale: Single,
    rotations: Vec<Double>,
    current: usize,
}

impl View for Doodad {
    type V = DoodadView;

    closed spec fn view(&self) -> DoodadView {
        DoodadView {
            name: self.name@,
            source_rect: self.source_rect,
            positions: self.positions@,
            scale: self.scale,
            rotations: self.rotations@,
            current: self.current as nat,
        }
    }
}

impl DeepView for Doodad {
    type V = DoodadView;

    open spec fn deep_view(&self) -> DoodadView {
        self@
    }
}

/// The placements of a doodad whose frames lie at the offsets that `frames`
/// hold from the point `(x, y)`, for an image of `width` by `height` pixels.
pub open spec fn placed(frames: Seq<FrameView>, x: int, y: int, width: int, height: int) -> Seq<
    Rect,
> {
    Seq::new(
        frames.len(),
        |i: int| Rect::spec_new(x + frames[i].dx, y + frames[i].dy, width, height),
    )
}

/// Whether `v` lies in the coordinate range.
pub open spec fn in_coordinate_range(v: int) -> bool {
    crate::mymath::MIN_COORD <= v <= crate::mymath::MAX_COORD
}

/// A doodad that was read lies where it was written. Its frames were placed at
/// the offsets that `frames` hold from the corner `(x, y)` of the background;
/// measured from the corner of a background that was placed there, its frames
/// lie at those offsets again. This holds where the corner, the offsets and
/// the places that they lead to are in the coordinate range.
pub proof fn lemma_offsets_restored(
    doodad: DoodadView,
    frames: Seq<FrameView>,
    x: int,
    y: int,
    width: int,
    height: int,
    background: Rect,
)
    requires
        doodad.positions == placed(frames, x, y, width, height),
        background.x == x,
        background.y == y,
        in_coordinate_range(x),
        in_coordinate_range(y),
        forall|i: int|
            0 <= i < frames.len() ==> in_coordinate_range((#[trigger] frames[i]).dx as int)
                && in_coordinate_range(frames[i].dy as int) && in_coordinate_range(
                x + frames[i].dx,
            ) && in_coordinate_range(y + frames[i].dy),
    ensures
        doodad.frames(
            background.spec_top_left(),
            Seq::new(frames.len(), |i: int| frames[i].rotation),
        ) == frames,
{
    let origin = background.spec_top_left();
    let rotations = Seq::new(frames.len(), |i: int| frames[i].rotation);
    let again = doodad.frames(origin, rotations);
    assert forall|i: int| 0 <= i < frames.len() implies again[i] == frames[i] by {
        assert(in_coordinate_range(frames[i].dx as int));
    }
    assert(again =~= frames);
}

impl Doodad {
    pub open spec fn wf(&self) -> bool {
        self@.wf()
    }

    /// The doodad that a saved scene holds as `record`, for an image of
    /// `width` by `height` pixels and a background whose corner lies at
    /// `(x_pos, y_pos)`: each frame lies at its offset from that corner.
    /// `rotations` are the rotations of its frames. The scale is 1, whatever
    /// the record holds as the text of the scale: a saved scene does not bring
    /// the scale back. It starts at frame 0.
    pub fn from_record(
        record: &DoodadRecord,
        width: u32,
        height: u32,
        x_pos: i32,
        y_pos: i32,
        rotations: Vec<Double>,
    ) -> (doodad: Doodad)
        requires
            record.frames.len() > 0,
            rotations.len() == record.frames.len(),
        ensures
            doodad.wf(),
            doodad@ == (DoodadView {
                name: record@.name,
                source_rect: Rect::spec_new(0, 0, width as int, height as int),
                positions: placed(
                    record@.frames,
                    x_pos as int,
                    y_pos as int,
                    width as int,
                    height as int,
                ),
                scale: Single::spec_one(),
                rotations: rotations@,
                current: 0,
            }),
    {
        let mut positions: Vec<Rect> = Vec::new();
        let mut i: usize = 0;
        let ghost frames = record@.frames;
        while i < record.frames.len()
            invariant
                i <= record.frames.len(),
                frames == record@.frames,
                positions@ == placed(
                    frames.take(i as int),
                    x_pos as int,
                    y_pos as int,
                    width as int,
                    height as int,
                ),
            decreases record.frames.len() - i,
        {
            let frame = &record.frames[i];
            assert(frames[i as int] == frame@);
            let x = clamp_wide(x_pos as i64 + frame.dx as i64);
            let y = clamp_wide(y_pos as i64 + frame.dy as i64);
            positions.push(Rect::new(x, y, width, height));
            i += 1;
            assert(positions@ =~= placed(
                frames.take(i as int),
                x_pos as int,
                y_pos as int,
                width as int,
                height as int,
            ));
        }
        assert(frames.take(i as int) =~= frames);
        Doodad {
            name: record.name.clone(),
            source_rect: Rect::new(0, 0, width, height),
            positions,
            scale: Single::one(),
            rotations,
            current: 0,
        }
    }

    /// A doodad named `name` for an image of `width` by `height` pixels, placed
    /// at `(x_pos, y_pos)` in each of `frame_count` frames, with rotation 0 in
    /// each and scale 1. It starts at frame 0.
    pub fn new(
        name: String,
        width: u32,
        height: u32,
        x_pos: i32,
        y_pos: i32,
        frame_count: u32,
    ) -> (doodad: Doodad)
        requires
            frame_count > 0,
        ensures
            doodad.wf(),
            doodad@ == (DoodadView {
                name: name@,
                source_rect: Rect::spec_new(0, 0, width as int, height as int),
                positions: Seq::new(
                    frame_count as nat,
                    |i: int| Rect::spec_new(x_pos as int, y_pos as int, width as int, height as int),
                ),
                scale: Single::spec_one(),
                rotations: Seq::new(frame_count as nat, |i: int| Double::spec_zero()),
                current: 0,
            }),
    {
        let mut positions: Vec<Rect> = Vec::new();
        let mut rotations: Vec<Double> = Vec::new();
        let mut i: u32 = 0;
        while i < frame_count
            invariant
                i <= frame_count,
                positions@ == Seq::new(
                    i as nat,
                    |k: int| Rect::spec_new(x_pos as int, y_pos as int, width as int, height as int),
                ),
                rotations@ == Seq::new(i as nat, |k: int| Double::spec_zero()),
            decreases frame_count - i,
        {
            positions.push(Rect::new(x_pos, y_pos, width, height));
            rotations.push(Double::zero());
            i += 1;
            assert(positions@ =~= Seq::new(
                i as nat,
                |k: int| Rect::spec_new(x_pos as int, y_pos as int, width as int, height as int),
            ));
            assert(rotations@ =~= Seq::new(i as nat, |k: int| Double::spec_zero()));
        }
        Doodad {
            name,
            source_rect: Rect::new(0, 0, width, height),
            positions,
            scale: Single::one(),
            rotations,
            current: 0,
        }
    }

    /// A doodad with the given placements and rotations, one of each for each
    /// frame. It starts at frame 0.
    pub fn load(
        name: String,
        width: u32,
        height: u32,
        positions: Vec<Rect>,
        rotations: Vec<Double>,
        scale: Single,
    ) -> (doodad: Doodad)
        requires
            positions.len() == rotations.len(),
            positions.len() > 0,
            forall|i: int| 0 <= i < positions.len() ==> (#[trigger] positions[i]).sized(),
        ensures
            doodad.wf(),
            doodad@ == (DoodadView {
                name: name@,
                source_rect: Rect::spec_new(0, 0, width as int, height as int),
                positions: positions@,
                scale,
                rotations: rotations@,
                current: 0,
            }),
    {
        Doodad {
            name,
            source_rect: Rect::new(0, 0, width, height),
            positions,
            scale,
            rotations,
            current: 0,
        }
    }

    /// Gives the doodad `frames` frames. New frames come at the end and take
    /// the placement and the rotation of frame 0; frames that are too many
    /// leave from the end. The frames that stay keep their number and their
    /// content. The current frame stays the current one if it is still there,
    /// else frame 0 becomes the current one.
    pub fn set_frames_amount(&mut self, frames: usize)
        requires
            old(self).wf(),
            frames > 0,
        ensures
            final(self).wf(),
            final(self)@ == (DoodadView {
                positions: resized(old(self)@.positions, frames as nat),
                rotations: resized(old(self)@.rotations, frames as nat),
                current: if old(self)@.current < frames {
                    old(self)@.current
                } else {
                    0
                },
                ..old(self)@
            }),
    {
        let first_position = self.positions[0];
        let first_rotation = self.rotations[0];
        if frames < self.positions.len() {
            self.positions.truncate(frames);
            self.rotations.truncate(frames);
        }
        while self.positions.len() < frames
            invariant
                self.positions.len() == self.rotations.len(),
                old(self)@.positions.len() == old(self)@.rotations.len(),
                old(self)@.positions.len() > 0,
                first_position == old(self)@.positions[0],
                first_rotation == old(self)@.rotations[0],
                self.positions.len() <= frames,
                self.positions.len() >= frames || self.positions.len() >= old(self)@.positions.len(),
                forall|i: int|
                    0 <= i < self.positions.len() ==> #[trigger] self.positions@[i] == if i < old(
                        self,
                    )@.positions.len() {
                        old(self)@.positions[i]
                    } else {
                        old(self)@.positions[0]
                    },
                forall|i: int|
                    0 <= i < self.rotations.len() ==> #[trigger] self.rotations@[i] == if i < old(
                        self,
                    )@.rotations.len() {
                        old(self)@.rotations[i]
                    } else {
                        old(self)@.rotations[0]
                    },
                self.name == old(self).name,
                self.scale == old(self).scale,
                self.source_rect == old(self).source_rect,
                self.current == old(self).current,
            decreases frames - self.positions.len(),
        {
            self.positions.push(first_position);
            self.rotations.push(first_rotation);
        }
        if self.current >= frames {
            self.current = 0;
        }
        assert(self@.positions =~= resized(old(self)@.positions, frames as nat));
        assert(self@.rotations =~= resized(old(self)@.rotations, frames as nat));
    }

    /// The line of this doodad in a saved scene:
    /// `name;scale;dx,dy,rotation/.../`, with the offsets of its placements
    /// from `origin`. `scale` is the text of its scale and `rotations[i]` that
    /// of its rotation in frame `i`.
    pub fn serialize(&self, origin: Point, scale: &str, rotations: &Vec<String>) -> (text: String)
        requires
            self.wf(),
            rotations.len() == self@.positions.len(),
        ensures
            text@ == doodad_line(self@.record(origin, scale@, rotations.deep_view())),
    {
        proof {
            reveal_strlit(";");
        }
        let mut temp = String::new();
        temp.append(self.name.as_str());
        temp.append(";");
        temp.append(scale);
        temp.append(";");
        let ghost head = temp@;
        let ghost frames = self@.frames(origin, rotations.deep_view());
        let mut i: usize = 0;
        assert(frames.take(0) =~= Seq::<FrameView>::empty());
        while i < self.positions.len()
            invariant
                i <= self.positions.len(),
                rotations.len() == self.positions.len(),
                frames == self@.frames(origin, rotations.deep_view()),
                frames.len() == self.positions.len(),
                temp@ == head + frames_text(frames.take(i as int)),
            decreases self.positions.len() - i,
        {
            let offset = self.positions[i].top_left().minus(origin);
            push_frame(&mut temp, offset.x, offset.y, rotations[i].as_str());
            proof {
                let longer = frames.take(i + 1);
                assert(longer.drop_last() =~= frames.take(i as int));
                assert(rotations.deep_view()[i as int] == rotations[i as int]@);
                assert(longer.last() == FrameView {
                    dx: offset.x,
                    dy: offset.y,
                    rotation: rotations[i as int]@,
                });
            }
            i += 1;
        }
        proof {
            assert(frames.take(i as int) =~= frames);
            assert(temp@ =~= doodad_line(self@.record(origin, scale@, rotations.deep_view())));
        }
        temp
    }

    /// The line of this doodad in the bracket layout, which holds no scale:
    /// `name;[dx,dy,rotation].[dx,dy,rotation].`, with the offsets of its
    /// placements from `origin`. `rotations[i]` is the text of its rotation in
    /// frame `i`.
    pub fn serialize2(&self, origin: Point, rotations: &Vec<String>) -> (text: String)
        requires
            self.wf(),
            rotations.len() == self@.positions.len(),
        ensures
            text@ == bracket_line(self@.record(origin, Seq::empty(), rotations.deep_view())),
    {
        let mut temp = String::new();
        temp.append(self.name.as_str());
        temp.append(";");
        let ghost head = temp@;
        let ghost frames = self@.frames(origin, rotations.deep_view());
        let mut i: usize = 0;
        proof {
            reveal_strlit(";");
            assert(frames.take(0) =~= Seq::<FrameView>::empty());
            assert(temp@ =~= head + brackets_text(frames.take(0)));
        }
        while i < self.positions.len()
            invariant
                i <= self.positions.len(),
                rotations.len() == self.positions.len(),
                frames == self@.frames(origin, rotations.deep_view()),
                frames.len() == self.positions.len(),
                temp@ == head + brackets_text(frames.take(i as int)),
            decreases self.positions.len() - i,
        {
            let offset = self.positions[i].top_left().minus(origin);
            let ghost before = temp@;
            temp.append("[");
            push_i32(&mut temp, offset.x);
            temp.append(",");
            push_i32(&mut temp, offset.y);
            temp.append(",");
            temp.append(rotations[i].as_str());
            temp.append("].");
            proof {
                reveal_strlit("[");
                reveal_strlit(",");
                reveal_strlit("].");
                let longer = frames.take(i + 1);
                assert(longer.drop_last() =~= frames.take(i as int));
                assert(rotations.deep_view()[i as int] == rotations[i as int]@);
                assert("]."@ =~= seq![']', '.']);
                assert(temp@ =~= before + crate::codec::bracket_text(longer.last()));
            }
            i += 1;
        }
        proof {
            assert(frames.take(i as int) =~= frames);
        }
        temp
    }

    /// The line of this doodad in the column layout, which holds no scale:
    /// `name;dx.dx.;dy.dy.;rotation.rotation.`, with the offsets of its
    /// placements from `origin`. `rotations[i]` is the text of its rotation in
    /// frame `i`.
    pub fn serialize3(&self, origin: Point, rotations: &Vec<String>) -> (text: String)
        requires
            self.wf(),
            rotations.len() == self@.positions.len(),
        ensures
            text@ == column_line(self@.record(origin, Seq::empty(), rotations.deep_view())),
    {
        let ghost frames = self@.frames(origin, rotations.deep_view());
        let ghost xs = Seq::new(frames.len(), |i: int| decimal_int(frames[i].dx as int));
        let ghost ys = Seq::new(frames.len(), |i: int| decimal_int(frames[i].dy as int));
        let ghost turns = Seq::new(frames.len(), |i: int| frames[i].rotation);
        let mut tempx = String::new();
        let mut tempy = String::new();
        let mut tempr = String::new();
        let mut i: usize = 0;
        proof {
            assert(xs.take(0) =~= Seq::<Seq<char>>::empty());
            assert(ys.take(0) =~= Seq::<Seq<char>>::empty());
            assert(turns.take(0) =~= Seq::<Seq<char>>::empty());
        }
        while i < self.positions.len()
            invariant
                i <= self.positions.len(),
                rotations.len() == self.positions.len(),
                frames == self@.frames(origin, rotations.deep_view()),
                frames.len() == self.positions.len(),
                xs == Seq::new(frames.len(), |i: int| decimal_int(frames[i].dx as int)),
                ys == Seq::new(frames.len(), |i: int| decimal_int(frames[i].dy as int)),
                turns == Seq::new(frames.len(), |i: int| frames[i].rotation),
                tempx@ == dotted(xs.take(i as int)),
                tempy@ == dotted(ys.take(i as int)),
                tempr@ == dotted(turns.take(i as int)),
            decreases self.positions.len() - i,
        {
            let offset = self.positions[i].top_left().minus(origin);
            push_i32(&mut tempx, offset.x);
            tempx.append(".");
            push_i32(&mut tempy, offset.y);
            tempy.append(".");
            tempr.append(rotations[i].as_str());
            tempr.append(".");
            proof {
                reveal_strlit(".");
                assert(rotations.deep_view()[i as int] == rotations[i as int]@);
                assert(xs.take(i + 1).drop_last() =~= xs.take(i as int));
                assert(ys.take(i + 1).drop_last() =~= ys.take(i as int));
                assert(turns.take(i + 1).drop_last() =~= turns.take(i as int));
                assert(tempx@ =~= dotted(xs.take(i + 1)));
                assert(tempy@ =~= dotted(ys.take(i + 1)));
                assert(tempr@ =~= dotted(turns.take(i + 1)));
            }
            i += 1;
        }
        let mut temp = String::new();
        temp.append(self.name.as_str());
        temp.append(";");
        temp.append(tempx.as_str());
        temp.append(";");
        temp.append(tempy.as_str());
        temp.append(";");
        temp.append(tempr.as_str());
        proof {
            reveal_strlit(";");
            assert(xs.take(i as int) =~= xs);
            assert(ys.take(i as int) =~= ys);
            assert(turns.take(i as int) =~= turns);
            assert(temp@ =~= column_line(
                self@.record(origin, Seq::empty(), rotations.deep_view()),
            ));
        }
        temp
    }

    /// Whether `change_all_positions` can move by `(dx, dy)`: whether the
    /// coordinates that it would give are coordinates still, in every frame.
    pub fn can_change_all_positions(&self, diff_x: i32, diff_y: i32) -> (ok: bool)
        requires
            self.wf(),
        ensures
            ok == self@.can_shift_all(diff_x as int, diff_y as int),
    {
        let mut i: usize = 0;
        while i < self.positions.len()
            invariant
                i <= self.positions.len(),
                forall|k: int|
                    0 <= k < i ==> fits(
                        guarded_shift((#[trigger] self@.positions[k]).x as int, diff_x as int),
                    ) && fits(guarded_shift(self@.positions[k].y as int, diff_y as int)),
            decreases self.positions.len() - i,
        {
            let position = self.positions[i];
            if !(guarded_fits(position.x, diff_x) && guarded_fits(position.y, diff_y)) {
                assert(position == self@.positions[i as int]);
                return false;
            }
            i += 1;
        }
        true
    }

    /// Moves the placement in every frame by `(dx, dy)`, each coordinate for
    /// itself: a move that would take a coordinate below 0 is left out, unless
    /// the amount is positive.
    pub fn change_all_positions(&mut self, diff_x: i32, diff_y: i32)
        requires
            old(self).wf(),
            old(self)@.can_shift_all(diff_x as int, diff_y as int),
        ensures
            final(self).wf(),
            final(self)@ == (DoodadView {
                positions: Seq::new(
                    old(self)@.positions.len(),
                    |i: int|
                        moved_to(
                            old(self)@.positions[i],
                            guarded_shift(old(self)@.positions[i].x as int, diff_x as int),
                            guarded_shift(old(self)@.positions[i].y as int, diff_y as int),
                        ),
                ),
                ..old(self)@
            }),
    {
        let mut i: usize = 0;
        while i < self.positions.len()
            invariant
                i <= self.positions.len(),
                self.positions.len() == old(self).positions.len(),
                self.name == old(self).name,
                self.scale == old(self).scale,
                self.source_rect == old(self).source_rect,
                self.current == old(self).current,
                self.rotations == old(self).rotations,
                forall|k: int|
                    0 <= k < i ==> #[trigger] self.positions@[k] == moved_to(
                        old(self)@.positions[k],
                        guarded_shift(old(self)@.positions[k].x as int, diff_x as int),
                        guarded_shift(old(self)@.positions[k].y as int, diff_y as int),
                    ),
                forall|k: int|
                    i <= k < self.positions.len() ==> #[trigger] self.positions@[k] == old(
                        self,
                    )@.positions[k],
                old(self)@.can_shift_all(diff_x as int, diff_y as int),
            decreases self.positions.len() - i,
        {
            let mut position = self.positions[i];
            assert(position == old(self)@.positions[i as int]);
            position.x = guarded(position.x, diff_x);
            position.y = guarded(position.y, diff_y);
            self.positions[i] = position;
            i += 1;
        }
        assert(self@.positions =~= Seq::new(
            old(self)@.positions.len(),
            |i: int|
                moved_to(
                    old(self)@.positions[i],
                    guarded_shift(old(self)@.positions[i].x as int, diff_x as int),
                    guarded_shift(old(self)@.positions[i].y as int, diff_y as int),
                ),
        ));
    }

    pub fn name(&self) -> (name: &String)
        ensures
            name@ == self@.name,
    {
        &self.name
    }

    pub fn get_frames_amount(&self) -> (frames: usize)
        ensures
            frames == self@.positions.len(),
    {
        self.positions.len()
    }

    /// The placement in frame `frame`.
    pub fn position_at(&self, frame: usize) -> (rect: Rect)
        requires
            frame < self@.positions.len(),
        ensures
            rect == self@.positions[frame as int],
    {
        self.positions[frame]
    }

    /// The rotation in frame `frame`.
    pub fn rotation_at(&self, frame: usize) -> (rotation: Double)
        requires
            self.wf(),
            frame < self@.rotations.len(),
        ensures
            rotation == self@.rotations[frame as int],
    {
        self.rotations[frame]
    }

    pub fn current_frame_index(&self) -> (current: usize)
        ensures
            current == self@.current,
    {
        self.current
    }
}

impl Fragment for Doodad {
    open spec fn valid(&self) -> bool {
        self@.wf()
    }

    open spec fn frame_count(&self) -> nat {
        self@.positions.len()
    }

    open spec fn current_frame(&self) -> nat {
        self@.current
    }

    open spec fn placement(&self) -> Rect {
        self@.positions[self@.current as int]
    }

    open spec fn rotation(&self) -> Double {
        self@.rotations[self@.current as int]
    }

    open spec fn scale(&self) -> Single {
        self@.scale
    }

    open spec fn source(&self) -> Rect {
        self@.source_rect
    }

    open spec fn shifted(&self, dx: int, dy: int) -> (int, int) {
        (self.placement().x + dx, self.placement().y + dy)
    }

    fn draw_position<F: Fn(i32, Single) -> i32>(&self, divide: &F) -> (rect: Rect) {
        draw_rect(self.positions[self.current], self.scale, divide)
    }

    fn real_position(&self) -> (rect: Rect) {
        self.positions[self.current]
    }

    fn can_change_position(&self, diff_x: i32, diff_y: i32) -> (ok: bool) {
        let position = self.positions[self.current];
        sum_fits(position.x, diff_x) && sum_fits(position.y, diff_y)
    }

    /// Moves the placement in the current frame by `(dx, dy)`; the other
    /// frames stay.
    fn change_position(&mut self, diff_x: i32, diff_y: i32)
        ensures
            final(self)@ == (DoodadView {
                positions: old(self)@.positions.update(
                    old(self)@.current as int,
                    moved_to(
                        old(self).placement(),
                        old(self).placement().x + diff_x,
                        old(self).placement().y + diff_y,
                    ),
                ),
                ..old(self)@
            }),
    {
        let mut position = self.positions[self.current];
        position.x = position.x + diff_x;
        position.y = position.y + diff_y;
        let current = self.current;
        self.positions[current] = position;
    }

    /// Sets the rotation in the current frame; the other frames stay.
    fn set_rotation(&mut self, rotation: Double)
        ensures
            final(self)@ == (DoodadView {
                rotations: old(self)@.rotations.update(old(self)@.current as int, rotation),
                ..old(self)@
            }),
    {
        let current = self.current;
        self.rotations[current] = rotation;
    }

    fn set_scale(&mut self, scale: Single)
        ensures
            final(self)@ == (DoodadView { scale, ..old(self)@ }),
    {
        self.scale = scale;
    }

    fn get_source_rect(&self) -> (rect: Rect) {
        self.source_rect
    }

    fn get_rotation(&self) -> (rotation: Double) {
        self.rotations[self.current]
    }

    fn get_scale(&self) -> (scale: Single) {
        self.scale
    }

    /// Makes frame `frame_number % frame_count` the current one. Nothing else
    /// changes: each frame keeps its placement and its rotation.
    fn set_frame(&mut self, frame_number: usize)
        ensures
            final(self)@ == (DoodadView {
                current: frame_number as nat % old(self)@.positions.len(),
                ..old(self)@
            }),
    {
        self.current = frame_number % self.positions.len();
    }
}

} // verus!
