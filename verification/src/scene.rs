//! The scene document: one background sheet and the doodads on it.
//!
//! The doodads are kept in order. The first is the active one: it takes the
//! edits, and it is drawn last, on top of the others. A click picks the first
//! doodad in order that it hits and makes it the first of all. All doodads have
//! as many frames as the background.

use crate::codec::{
    doodad_lines, header_line, lemma_decode_encode, plain_field, plain_token, scene_of,
    scene_text, DoodadRecordView, FormatError, HeaderView, SceneRecord, SceneRecordView,
};
use crate::decimal::push_i32;
use crate::fragment::{
    fits, guarded_shift, in_coordinate_range, lemma_offsets_restored, moved_to, placed, resized,
    Doodad, DoodadView, Fragment, SheetView, Spritesheet,
};
use crate::mymath::{
    check_rect2, clamp_position, outlines, point_in_quad, rotate_rectangle, Point, Rect,
};
use crate::number::{Double, Single};
use vstd::prelude::*;
use vstd::string::StringExecFns;

verus! {

/// What the pointer does to the scene while it moves.
#[derive(Clone, Copy, Debug, PartialEq, Eq, Structural)]
pub enum Pointer {
    /// The button is up: moving the pointer changes nothing.
    Up,
    /// The button went down on no doodad: moving the pointer moves the whole
    /// scene.
    Panning,
    /// The button went down on a doodad, now the active one: moving the
    /// pointer moves it.
    Dragging,
}

/// The sequence with entry `i` moved to the front and the others in their
/// order behind it.
pub open spec fn to_front<T>(s: Seq<T>, i: int) -> Seq<T> {
    seq![s[i]] + s.remove(i)
}

/// Whether `quad` holds corners that the outline of `doodad` on the screen can
/// have: those of its placement in its current frame, drawn at its scale and
/// turned by its rotation in that frame. `narrow` brings the rotation to
/// single precision; `extent` and `turn` are the scaling and the rotation, as
/// for `rotate_rectangle`.
pub open spec fn outline_of<
    N: Fn(Double) -> Single,
    E: Fn(u32, Single) -> (i32, i32),
    T: Fn(i32, i32, Single) -> (i32, i32),
>(narrow: N, extent: E, turn: T, doodad: DoodadView, quad: Seq<Point>) -> bool {
    exists|rotation: Single|
        call_ensures(narrow, (doodad.rotations[doodad.current as int],), rotation) && outlines(
            extent,
            turn,
            doodad.positions[doodad.current as int],
            rotation,
            doodad.scale,
            quad,
        )
}

/// Whether `hit` says rightly whether a click at `point` hits `doodad`: whether
/// the point counts as inside the outline of the doodad.
pub open spec fn hit_by<
    N: Fn(Double) -> Single,
    E: Fn(u32, Single) -> (i32, i32),
    T: Fn(i32, i32, Single) -> (i32, i32),
>(narrow: N, extent: E, turn: T, doodad: DoodadView, point: Point, hit: bool) -> bool {
    exists|quad: Seq<Point>|
        outline_of(narrow, extent, turn, doodad, quad) && point_in_quad(quad, point) == hit
}

/// Whether `hit` is what a click at `point` picks among `doodads`: the first
/// doodad in order that the click hits, or none if it hits none.
pub open spec fn picks<
    N: Fn(Double) -> Single,
    E: Fn(u32, Single) -> (i32, i32),
    T: Fn(i32, i32, Single) -> (i32, i32),
>(narrow: N, extent: E, turn: T, doodads: Seq<DoodadView>, point: Point, hit: Option<usize>) -> bool {
    match hit {
        Some(i) => i < doodads.len() && hit_by(narrow, extent, turn, doodads[i as int], point, true)
            && forall|j: int|
            0 <= j < i ==> hit_by(narrow, extent, turn, #[trigger] doodads[j], point, false),
        None => forall|j: int|
            0 <= j < doodads.len() ==> hit_by(
                narrow,
                extent,
                turn,
                #[trigger] doodads[j],
                point,
                false,
            ),
    }
}

/// Whether the three functions that stand for the arithmetic on real numbers
/// can be called with any arguments.
pub open spec fn reals_ready<
    N: Fn(Double) -> Single,
    E: Fn(u32, Single) -> (i32, i32),
    T: Fn(i32, i32, Single) -> (i32, i32),
>(narrow: N, extent: E, turn: T) -> bool {
    &&& forall|rotation: Double| call_requires(narrow, (rotation,))
    &&& forall|length: u32, factor: Single| call_requires(extent, (length, factor))
    &&& forall|dx: i32, dy: i32, angle: Single| call_requires(turn, (dx, dy, angle))
}

/// The order in which `count` doodads are drawn: from the last to the first,
/// so that the first, the active one, comes out on top.
pub fn draw_order(count: usize) -> (order: Vec<usize>)
    ensures
        order@.len() == count,
        forall|k: int| 0 <= k < count ==> #[trigger] order@[k] == count - 1 - k,
{
    let mut order: Vec<usize> = Vec::new();
    let mut i: usize = count;
    while i > 0
        invariant
            i <= count,
            order@.len() == count - i,
            forall|k: int| 0 <= k < order@.len() ==> #[trigger] order@[k] == count - 1 - k,
        decreases i,
    {
        i -= 1;
        order.push(i);
    }
    order
}

/// The four edges of a quad in the order in which its outline is drawn: each
/// corner to the next, and the last back to the first.
pub fn outline(quad: [Point; 4]) -> (edges: [(Point, Point); 4])
    ensures
        forall|k: int| 0 <= k < 4 ==> #[trigger] edges@[k] == (quad@[k], quad@[(k + 1) % 4]),
{
    [(quad[0], quad[1]), (quad[1], quad[2]), (quad[2], quad[3]), (quad[3], quad[0])]
}

/// Whether the parts of a scene to load fit together: the file gives the
/// background a frame, there is an image size for each doodad and a list of
/// rotations for each, and each doodad has as many frames in the file, and as
/// many rotations, as the background has frames.
pub open spec fn loadable(
    record: SceneRecordView,
    sizes: Seq<(u32, u32)>,
    rotations: Seq<Seq<Double>>,
) -> bool {
    &&& record.header.frame_count > 0
    &&& sizes.len() == record.doodads.len()
    &&& rotations.len() == record.doodads.len()
    &&& forall|i: int|
        0 <= i < record.doodads.len() ==> (#[trigger] record.doodads[i]).frames.len()
            == record.header.frame_count && rotations[i].len() == record.header.frame_count
}

/// The scene that a file holds as `record`, loaded with the background at
/// `(x, y)`. The background is the image of `width` by `height` pixels, cut
/// into the frames that the file gives. Doodad `i` is the image of `sizes[i]`
/// pixels; in each frame it lies at its offset from `(x, y)` and has the
/// rotation that `rotations[i]` gives. Every scale is 1, whatever the file
/// holds as the text of a scale: a saved scene does not bring the scales
/// back. All frames are at 0 and the pointer is up.
pub open spec fn loaded(
    record: SceneRecordView,
    x: int,
    y: int,
    width: int,
    height: int,
    sizes: Seq<(u32, u32)>,
    rotations: Seq<Seq<Double>>,
) -> SceneView {
    let frames = record.header.frame_count as int;
    SceneView {
        background: SheetView {
            name: record.header.name,
            source_rect: Rect::spec_new(0, 0, width / frames, height),
            frame_width: (width / frames) as nat,
            position: Rect::spec_new(x, y, width / frames, height),
            scale: Single::spec_one(),
            rotation: Double::spec_zero(),
            frame_count: frames as nat,
            current: 0,
        },
        doodads: Seq::new(
            record.doodads.len(),
            |i: int|
                DoodadView {
                    name: record.doodads[i].name,
                    source_rect: Rect::spec_new(0, 0, sizes[i].0 as int, sizes[i].1 as int),
                    positions: placed(
                        record.doodads[i].frames,
                        x,
                        y,
                        sizes[i].0 as int,
                        sizes[i].1 as int,
                    ),
                    scale: Single::spec_one(),
                    rotations: rotations[i],
                    current: 0,
                },
        ),
        pointer: Pointer::Up,
    }
}

/// The scene as the contracts see it.
pub struct SceneView {
    pub background: SheetView,
    pub doodads: Seq<DoodadView>,
    pub pointer: Pointer,
}

impl SceneView {
    /// The background and the doodads are well formed, each doodad has as many
    /// frames as the background, and a doodad is dragged only if there is one.
    pub open spec fn wf(self) -> bool {
        &&& self.background.wf()
        &&& forall|i: int|
            0 <= i < self.doodads.len() ==> (#[trigger] self.doodads[i]).wf()
                && self.doodads[i].positions.len() == self.background.frame_count
        &&& (self.pointer == Pointer::Dragging ==> self.doodads.len() > 0)
    }

    /// The corner of the background, from which a saved scene measures.
    pub open spec fn origin(self) -> Point {
        self.background.position.spec_top_left()
    }

    /// The scene as a file holds it, with the given framerate, `scales[i]` as
    /// the text of the scale of doodad `i` and `rotations[i][k]` as the text
    /// of its rotation in frame `k`.
    pub open spec fn record(
        self,
        framerate: i32,
        scales: Seq<Seq<char>>,
        rotations: Seq<Seq<Seq<char>>>,
    ) -> SceneRecordView {
        SceneRecordView {
            header: HeaderView {
                name: self.background.name,
                frame_count: self.background.frame_count as usize,
                framerate,
            },
            doodads: Seq::new(
                self.doodads.len(),
                |i: int| self.doodads[i].record(self.origin(), scales[i], rotations[i]),
            ),
        }
    }

    /// Whether a move of the pointer by `(dx, dy)` leaves every coordinate
    /// that it changes a coordinate.
    pub open spec fn can_move(self, dx: int, dy: int) -> bool {
        match self.pointer {
            Pointer::Up => true,
            Pointer::Dragging => {
                let placement = self.doodads[0].positions[self.doodads[0].current as int];
                fits(placement.x + dx) && fits(placement.y + dy)
            },
            Pointer::Panning => {
                &&& fits(guarded_shift(self.background.position.x as int, dx))
                &&& fits(guarded_shift(self.background.position.y as int, dy))
                &&& forall|i: int|
                    0 <= i < self.doodads.len() ==> (#[trigger] self.doodads[i]).can_shift_all(
                        dx,
                        dy,
                    )
            },
        }
    }

    /// The doodads after the whole scene has moved by `(dx, dy)`.
    pub open spec fn panned(self, dx: int, dy: int) -> Seq<DoodadView> {
        Seq::new(
            self.doodads.len(),
            |i: int|
                DoodadView {
                    positions: Seq::new(
                        self.doodads[i].positions.len(),
                        |k: int|
                            moved_to(
                                self.doodads[i].positions[k],
                                guarded_shift(self.doodads[i].positions[k].x as int, dx),
                                guarded_shift(self.doodads[i].positions[k].y as int, dy),
                            ),
                    ),
                    ..self.doodads[i]
                },
        )
    }
}

/// One background sheet, the doodads on it, and what the pointer is doing.
pub struct Scene {
    background: Spritesheet,
    doodads: Vec<Doodad>,
    pointer: Pointer,
}

impl View for Scene {
    type V = SceneView;

    closed spec fn view(&self) -> SceneView {
        SceneView {
            background: self.background@,
            doodads: self.doodads.deep_view(),
            pointer: self.pointer,
        }
    }
}

impl Scene {
    pub open spec fn wf(&self) -> bool {
        self@.wf()
    }

    /// A scene with the given background and no doodads.
    pub fn new(background: Spritesheet) -> (scene: Scene)
        requires
            background.wf(),
        ensures
            scene.wf(),
            scene@ == (SceneView {
                background: background@,
                doodads: Seq::empty(),
                pointer: Pointer::Up,
            }),
    {
        let scene = Scene { background, doodads: Vec::new(), pointer: Pointer::Up };
        assert(scene@.doodads =~= Seq::<DoodadView>::empty());
        scene
    }

    pub fn background(&self) -> (background: &Spritesheet)
        ensures
            background@ == self@.background,
    {
        &self.background
    }

    /// How many doodads the scene has.
    pub fn len(&self) -> (count: usize)
        ensures
            count == self@.doodads.len(),
    {
        self.doodads.len()
    }

    /// Doodad `index` in order; doodad 0 is the active one.
    pub fn doodad(&self, index: usize) -> (doodad: &Doodad)
        requires
            index < self@.doodads.len(),
        ensures
            doodad@ == self@.doodads[index as int],
    {
        &self.doodads[index]
    }

    /// The active doodad, if the scene has a doodad.
    pub fn active(&self) -> (doodad: Option<&Doodad>)
        ensures
            doodad is Some <==> self@.doodads.len() > 0,
            doodad is Some ==> doodad->0@ == self@.doodads[0],
    {
        if self.doodads.len() > 0 {
            Some(&self.doodads[0])
        } else {
            None
        }
    }

    pub fn pointer(&self) -> (pointer: Pointer)
        ensures
            pointer == self@.pointer,
    {
        self.pointer
    }

    /// Makes doodad `index` the first; the others keep their order.
    pub fn bring_to_front(&mut self, index: usize)
        requires
            old(self).wf(),
            index < old(self)@.doodads.len(),
        ensures
            final(self).wf(),
            final(self)@ == (SceneView {
                doodads: to_front(old(self)@.doodads, index as int),
                ..old(self)@
            }),
    {
        let el = self.doodads.remove(index);
        self.doodads.insert(0, el);
        proof {
            let before = old(self)@.doodads;
            assert(self@.doodads =~= to_front(before, index as int));
            assert forall|i: int| 0 <= i < self@.doodads.len() implies (
            #[trigger] self@.doodads[i]).wf() && self@.doodads[i].positions.len()
                == self@.background.frame_count by {
                if i == 0 {
                    assert(self@.doodads[i] == before[index as int]);
                } else if i <= index {
                    assert(self@.doodads[i] == before[i - 1]);
                } else {
                    assert(self@.doodads[i] == before[i]);
                }
            }
        }
    }

    /// The outline of doodad `index` on the screen.
    fn outline_at<
        N: Fn(Double) -> Single,
        E: Fn(u32, Single) -> (i32, i32),
        T: Fn(i32, i32, Single) -> (i32, i32),
    >(&self, index: usize, narrow: &N, extent: &E, turn: &T) -> (quad: [Point; 4])
        requires
            self.wf(),
            index < self@.doodads.len(),
            reals_ready(*narrow, *extent, *turn),
        ensures
            outline_of(*narrow, *extent, *turn, self@.doodads[index as int], quad@),
    {
        let doodad = &self.doodads[index];
        assert(self@.doodads[index as int] == doodad@);
        let rotation = narrow(doodad.get_rotation());
        let quad = rotate_rectangle(
            doodad.real_position(),
            rotation,
            doodad.get_scale(),
            extent,
            turn,
        );
        assert(call_ensures(*narrow, (doodad@.rotations[doodad@.current as int],), rotation)
            && outlines(
            *extent,
            *turn,
            doodad@.positions[doodad@.current as int],
            rotation,
            doodad@.scale,
            quad@,
        ));
        quad
    }

    /// The doodad that a click at `point` picks: the first in order that it
    /// hits.
    fn pick<
        N: Fn(Double) -> Single,
        E: Fn(u32, Single) -> (i32, i32),
        T: Fn(i32, i32, Single) -> (i32, i32),
    >(&self, point: Point, narrow: &N, extent: &E, turn: &T) -> (hit: Option<usize>)
        requires
            self.wf(),
            reals_ready(*narrow, *extent, *turn),
        ensures
            picks(*narrow, *extent, *turn, self@.doodads, point, hit),
    {
        let mut i: usize = 0;
        while i < self.doodads.len()
            invariant
                i <= self.doodads.len(),
                self.wf(),
                reals_ready(*narrow, *extent, *turn),
                forall|j: int|
                    0 <= j < i ==> hit_by(
                        *narrow,
                        *extent,
                        *turn,
                        #[trigger] self@.doodads[j],
                        point,
                        false,
                    ),
            decreases self.doodads.len() - i,
        {
            let quad = self.outline_at(i, narrow, extent, turn);
            let inside = check_rect2(quad, point);
            assert(outline_of(*narrow, *extent, *turn, self@.doodads[i as int], quad@)
                && point_in_quad(quad@, point) == inside);
            if inside {
                return Some(i);
            }
            i += 1;
        }
        None
    }

    /// The button goes down at `point`. A click hits a doodad if the point
    /// counts as inside the outline of the doodad on the screen: that of its
    /// placement in its current frame, drawn at its scale and turned by its
    /// rotation in that frame. `narrow`, `extent` and `turn` are the
    /// arithmetic of this: see `outline_of`. The first doodad in order that
    /// the click hits becomes the active one: it moves to the front, the
    /// others keep their order, and the pointer drags it. If the click hits
    /// none, the doodads stay as they are and the pointer pans the scene.
    /// Gives the place that the picked doodad had.
    pub fn pointer_down<
        N: Fn(Double) -> Single,
        E: Fn(u32, Single) -> (i32, i32),
        T: Fn(i32, i32, Single) -> (i32, i32),
    >(&mut self, point: Point, narrow: &N, extent: &E, turn: &T) -> (hit: Option<usize>)
        requires
            old(self).wf(),
            reals_ready(*narrow, *extent, *turn),
        ensures
            final(self).wf(),
            picks(*narrow, *extent, *turn, old(self)@.doodads, point, hit),
            final(self)@ == (SceneView {
                doodads: match hit {
                    Some(i) => to_front(old(self)@.doodads, i as int),
                    None => old(self)@.doodads,
                },
                pointer: match hit {
                    Some(_) => Pointer::Dragging,
                    None => Pointer::Panning,
                },
                ..old(self)@
            }),
    {
        let hit = self.pick(point, narrow, extent, turn);
        self.pointer = Pointer::Up;
        match hit {
            Some(i) => {
                self.bring_to_front(i);
                self.pointer = Pointer::Dragging;
            },
            None => {
                self.pointer = Pointer::Panning;
            },
        }
        hit
    }

    /// The edges of the outline of the active doodad on the screen, in the
    /// order in which they are drawn, if the scene has a doodad. `narrow`,
    /// `extent` and `turn` are as for `pointer_down`.
    pub fn active_outline<
        N: Fn(Double) -> Single,
        E: Fn(u32, Single) -> (i32, i32),
        T: Fn(i32, i32, Single) -> (i32, i32),
    >(&self, narrow: &N, extent: &E, turn: &T) -> (edges: Option<[(Point, Point); 4]>)
        requires
            self.wf(),
            reals_ready(*narrow, *extent, *turn),
        ensures
            edges is Some <==> self@.doodads.len() > 0,
            edges is Some ==> exists|quad: Seq<Point>|
                outline_of(*narrow, *extent, *turn, self@.doodads[0], quad) && forall|k: int|
                    0 <= k < 4 ==> #[trigger] edges->0@[k] == (quad[k], quad[(k + 1) % 4]),
    {
        if self.doodads.len() == 0 {
            return None;
        }
        let quad = self.outline_at(0, narrow, extent, turn);
        let edges = outline(quad);
        assert(outline_of(*narrow, *extent, *turn, self@.doodads[0], quad@) && forall|k: int|
            0 <= k < 4 ==> #[trigger] edges@[k] == (quad@[k], quad@[(k + 1) % 4]));
        Some(edges)
    }

    /// The button goes up: moving the pointer changes nothing from now on.
    pub fn pointer_up(&mut self)
        requires
            old(self).wf(),
        ensures
            final(self).wf(),
            final(self)@ == (SceneView { pointer: Pointer::Up, ..old(self)@ }),
    {
        self.pointer = Pointer::Up;
    }

    /// Whether `pointer_move` can move by `(dx, dy)`.
    pub fn can_move(&self, dx: i32, dy: i32) -> (ok: bool)
        requires
            self.wf(),
        ensures
            ok == self@.can_move(dx as int, dy as int),
    {
        match self.pointer {
            Pointer::Up => true,
            Pointer::Dragging => {
                assert(self@.doodads[0] == self.doodads[0]@);
                self.doodads[0].can_change_position(dx, dy)
            },
            Pointer::Panning => {
                if !self.background.can_change_position(dx, dy) {
                    return false;
                }
                let mut i: usize = 0;
                while i < self.doodads.len()
                    invariant
                        i <= self.doodads.len(),
                        self.wf(),
                        self.pointer == Pointer::Panning,
                        fits(guarded_shift(self@.background.position.x as int, dx as int)),
                        fits(guarded_shift(self@.background.position.y as int, dy as int)),
                        forall|k: int|
                            0 <= k < i ==> (#[trigger] self@.doodads[k]).can_shift_all(
                                dx as int,
                                dy as int,
                            ),
                    decreases self.doodads.len() - i,
                {
                    assert(self@.doodads[i as int] == self.doodads[i as int]@);
                    if !self.doodads[i].can_change_all_positions(dx, dy) {
                        return false;
                    }
                    i += 1;
                }
                true
            },
        }
    }

    /// The pointer moves by `(dx, dy)`. While it drags, the active doodad
    /// moves by as much in its current frame. While it pans, the background
    /// moves, and every doodad in every frame, each coordinate held back at
    /// the near edge. While the button is up, nothing changes.
    pub fn pointer_move(&mut self, dx: i32, dy: i32)
        requires
            old(self).wf(),
            old(self)@.can_move(dx as int, dy as int),
        ensures
            final(self).wf(),
            final(self)@ == (match old(self)@.pointer {
                Pointer::Up => old(self)@,
                Pointer::Dragging => SceneView {
                    doodads: old(self)@.doodads.update(
                        0,
                        DoodadView {
                            positions: old(self)@.doodads[0].positions.update(
                                old(self)@.doodads[0].current as int,
                                moved_to(
                                    old(self)@.doodads[0].positions[old(
                                        self,
                                    )@.doodads[0].current as int],
                                    old(self)@.doodads[0].positions[old(
                                        self,
                                    )@.doodads[0].current as int].x + dx,
                                    old(self)@.doodads[0].positions[old(
                                        self,
                                    )@.doodads[0].current as int].y + dy,
                                ),
                            ),
                            ..old(self)@.doodads[0]
                        },
                    ),
                    ..old(self)@
                },
                Pointer::Panning => SceneView {
                    background: SheetView {
                        position: moved_to(
                            old(self)@.background.position,
                            guarded_shift(old(self)@.background.position.x as int, dx as int),
                            guarded_shift(old(self)@.background.position.y as int, dy as int),
                        ),
                        ..old(self)@.background
                    },
                    doodads: old(self)@.panned(dx as int, dy as int),
                    ..old(self)@
                },
            }),
    {
        match self.pointer {
            Pointer::Up => {},
            Pointer::Dragging => {
                assert(self@.doodads[0] == self.doodads[0]@);
                self.doodads[0].change_position(dx, dy);
                assert(self@.doodads =~= old(self)@.doodads.update(0, self.doodads[0]@));
            },
            Pointer::Panning => {
                self.background.change_position(dx, dy);
                let mut i: usize = 0;
                while i < self.doodads.len()
                    invariant
                        i <= self.doodads.len(),
                        self.doodads.len() == old(self).doodads.len(),
                        old(self).wf(),
                        old(self)@.can_move(dx as int, dy as int),
                        old(self)@.pointer == Pointer::Panning,
                        self.pointer == old(self).pointer,
                        self.background@ == (SheetView {
                            position: moved_to(
                                old(self)@.background.position,
                                guarded_shift(old(self)@.background.position.x as int, dx as int),
                                guarded_shift(old(self)@.background.position.y as int, dy as int),
                            ),
                            ..old(self)@.background
                        }),
                        forall|k: int|
                            0 <= k < i ==> #[trigger] self@.doodads[k] == old(self)@.panned(
                                dx as int,
                                dy as int,
                            )[k],
                        forall|k: int|
                            i <= k < self.doodads.len() ==> #[trigger] self@.doodads[k] == old(
                                self,
                            )@.doodads[k],
                    decreases self.doodads.len() - i,
                {
                    assert(self@.doodads[i as int] == self.doodads[i as int]@);
                    assert(old(self)@.doodads[i as int].can_shift_all(dx as int, dy as int));
                    let ghost before = self@.doodads;
                    self.doodads[i].change_all_positions(dx, dy);
                    assert(self@.doodads =~= before.update(i as int, self.doodads[i as int]@));
                    i += 1;
                }
                assert(self@.doodads =~= old(self)@.panned(dx as int, dy as int));
            },
        }
    }

    /// Sets the scale of the active doodad; without a doodad nothing changes.
    pub fn set_scale(&mut self, scale: Single)
        requires
            old(self).wf(),
        ensures
            final(self).wf(),
            final(self)@ == (SceneView {
                doodads: if old(self)@.doodads.len() > 0 {
                    old(self)@.doodads.update(0, DoodadView { scale, ..old(self)@.doodads[0] })
                } else {
                    old(self)@.doodads
                },
                ..old(self)@
            }),
    {
        if self.doodads.len() > 0 {
            assert(self@.doodads[0] == self.doodads[0]@);
            self.doodads[0].set_scale(scale);
            assert(self@.doodads =~= old(self)@.doodads.update(0, self.doodads[0]@));
        }
    }

    /// Sets the rotation of the active doodad in its current frame; without a
    /// doodad nothing changes.
    pub fn set_rotation(&mut self, rotation: Double)
        requires
            old(self).wf(),
        ensures
            final(self).wf(),
            final(self)@ == (SceneView {
                doodads: if old(self)@.doodads.len() > 0 {
                    old(self)@.doodads.update(
                        0,
                        DoodadView {
                            rotations: old(self)@.doodads[0].rotations.update(
                                old(self)@.doodads[0].current as int,
                                rotation,
                            ),
                            ..old(self)@.doodads[0]
                        },
                    )
                } else {
                    old(self)@.doodads
                },
                ..old(self)@
            }),
    {
        if self.doodads.len() > 0 {
            assert(self@.doodads[0] == self.doodads[0]@);
            self.doodads[0].set_rotation(rotation);
            assert(self@.doodads =~= old(self)@.doodads.update(0, self.doodads[0]@));
        }
    }

    /// The scene with frame `frame` as the current one of the background and of
    /// every doodad, and the source rectangle of the background at the tile of
    /// that frame.
    pub open spec fn at_frame(view: SceneView, frame: nat) -> SceneView {
        SceneView {
            background: SheetView {
                current: frame,
                source_rect: Rect {
                    x: clamp_position((frame * view.background.frame_width) as int) as i32,
                    ..view.background.source_rect
                },
                ..view.background
            },
            doodads: Seq::new(
                view.doodads.len(),
                |i: int| DoodadView { current: frame, ..view.doodads[i] },
            ),
            ..view
        }
    }

    /// Makes frame `frame % frame_count` the current one, for the background
    /// and for every doodad.
    pub fn set_frame(&mut self, frame: usize)
        requires
            old(self).wf(),
        ensures
            final(self).wf(),
            final(self)@ == Scene::at_frame(
                old(self)@,
                frame as nat % old(self)@.background.frame_count,
            ),
    {
        self.background.set_frame(frame);
        let mut i: usize = 0;
        while i < self.doodads.len()
            invariant
                i <= self.doodads.len(),
                self.doodads.len() == old(self).doodads.len(),
                old(self).wf(),
                self.pointer == old(self).pointer,
                self.background@.wf(),
                self.background@ == Scene::at_frame(
                    old(self)@,
                    frame as nat % old(self)@.background.frame_count,
                ).background,
                forall|k: int|
                    0 <= k < i ==> #[trigger] self@.doodads[k] == (DoodadView {
                        current: frame as nat % old(self)@.background.frame_count,
                        ..old(self)@.doodads[k]
                    }),
                forall|k: int|
                    i <= k < self.doodads.len() ==> #[trigger] self@.doodads[k] == old(
                        self,
                    )@.doodads[k],
            decreases self.doodads.len() - i,
        {
            assert(self@.doodads[i as int] == self.doodads[i as int]@);
            let ghost before = self@.doodads;
            self.doodads[i].set_frame(frame);
            assert(self@.doodads =~= before.update(i as int, self.doodads[i as int]@));
            i += 1;
        }
        assert(self@.doodads =~= Scene::at_frame(
            old(self)@,
            frame as nat % old(self)@.background.frame_count,
        ).doodads);
    }

    /// Adds a doodad named `name` for an image of `width` by `height` pixels
    /// behind the others. It lies at `(x_pos, y_pos)` in every frame, with
    /// rotation 0 and scale 1, has as many frames as the background and
    /// starts at frame 0.
    pub fn add_doodad(&mut self, name: String, width: u32, height: u32, x_pos: i32, y_pos: i32)
        requires
            old(self).wf(),
        ensures
            final(self).wf(),
            final(self)@ == (SceneView {
                doodads: old(self)@.doodads.push(
                    DoodadView {
                        name: name@,
                        source_rect: Rect::spec_new(0, 0, width as int, height as int),
                        positions: Seq::new(
                            old(self)@.background.frame_count,
                            |i: int|
                                Rect::spec_new(
                                    x_pos as int,
                                    y_pos as int,
                                    width as int,
                                    height as int,
                                ),
                        ),
                        scale: Single::spec_one(),
                        rotations: Seq::new(
                            old(self)@.background.frame_count,
                            |i: int| Double::spec_zero(),
                        ),
                        current: 0,
                    },
                ),
                ..old(self)@
            }),
    {
        let mut doodad = Doodad::new(name, width, height, x_pos, y_pos, 1);
        doodad.set_frames_amount(self.background.get_frames_amount());
        proof {
            assert(doodad@.positions =~= Seq::new(
                old(self)@.background.frame_count,
                |i: int| Rect::spec_new(x_pos as int, y_pos as int, width as int, height as int),
            ));
            assert(doodad@.rotations =~= Seq::new(
                old(self)@.background.frame_count,
                |i: int| Double::spec_zero(),
            ));
        }
        let ghost before = self@.doodads;
        self.doodads.push(doodad);
        assert(self@.doodads =~= before.push(doodad@));
    }

    /// Takes all doodads out of the scene.
    pub fn clear_doodads(&mut self)
        requires
            old(self).wf(),
        ensures
            final(self).wf(),
            final(self)@ == (SceneView {
                doodads: Seq::empty(),
                pointer: if old(self)@.pointer == Pointer::Dragging {
                    Pointer::Panning
                } else {
                    old(self)@.pointer
                },
                ..old(self)@
            }),
    {
        self.doodads.clear();
        if self.pointer == Pointer::Dragging {
            self.pointer = Pointer::Panning;
        }
        assert(self@.doodads =~= Seq::<DoodadView>::empty());
    }

    /// Starts a new scene: the given background and no doodads.
    pub fn reset(&mut self, background: Spritesheet)
        requires
            background.wf(),
        ensures
            final(self).wf(),
            final(self)@ == (SceneView {
                background: background@,
                doodads: Seq::empty(),
                pointer: Pointer::Up,
            }),
    {
        self.doodads.clear();
        self.background = background;
        self.pointer = Pointer::Up;
        assert(self@.doodads =~= Seq::<DoodadView>::empty());
    }

    /// Puts the scene that a file holds as `record` in the place of this one,
    /// if the parts that are given for it fit together: see `loadable`. If
    /// they do not, this scene stays as it is. The background is the image of
    /// `width` by `height` pixels, placed at `(x_pos, y_pos)`; doodad `i` is
    /// the image of `sizes[i]` pixels, has the rotations `rotations[i]` and
    /// lies in each frame at its offset from `(x_pos, y_pos)`: see `loaded`.
    pub fn load(
        &mut self,
        record: &SceneRecord,
        x_pos: i32,
        y_pos: i32,
        width: u32,
        height: u32,
        sizes: &Vec<(u32, u32)>,
        rotations: &Vec<Vec<Double>>,
    ) -> (done: bool)
        requires
            old(self).wf(),
        ensures
            final(self).wf(),
            done == loadable(record@, sizes@, rotations.deep_view()),
            final(self)@ == if done {
                loaded(
                    record@,
                    x_pos as int,
                    y_pos as int,
                    width as int,
                    height as int,
                    sizes@,
                    rotations.deep_view(),
                )
            } else {
                old(self)@
            },
    {
        let frames = record.header.frame_count;
        let count = record.doodads.len();
        if frames == 0 || sizes.len() != count || rotations.len() != count {
            return false;
        }
        let mut i: usize = 0;
        while i < count
            invariant
                i <= count,
                count == record.doodads.len(),
                rotations.len() == count,
                frames == record.header.frame_count,
                *self == *old(self),
                old(self).wf(),
                forall|k: int|
                    0 <= k < i ==> (#[trigger] record@.doodads[k]).frames.len() == frames
                        && rotations.deep_view()[k].len() == frames,
            decreases count - i,
        {
            assert(record@.doodads[i as int] == record.doodads[i as int]@);
            assert(rotations.deep_view()[i as int] == rotations[i as int].deep_view());
            if record.doodads[i].frames.len() != frames || rotations[i].len() != frames {
                return false;
            }
            i += 1;
        }
        let ghost target = loaded(
            record@,
            x_pos as int,
            y_pos as int,
            width as int,
            height as int,
            sizes@,
            rotations.deep_view(),
        );
        let mut doodads: Vec<Doodad> = Vec::new();
        let mut i: usize = 0;
        assert(doodads.deep_view() =~= target.doodads.take(0));
        while i < count
            invariant
                i <= count,
                count == record.doodads.len(),
                rotations.len() == count,
                sizes.len() == count,
                frames == record.header.frame_count,
                frames > 0,
                forall|k: int|
                    0 <= k < count ==> (#[trigger] record@.doodads[k]).frames.len() == frames
                        && rotations.deep_view()[k].len() == frames,
                target == loaded(
                    record@,
                    x_pos as int,
                    y_pos as int,
                    width as int,
                    height as int,
                    sizes@,
                    rotations.deep_view(),
                ),
                doodads.deep_view() == target.doodads.take(i as int),
                forall|k: int| 0 <= k < i ==> (#[trigger] doodads[k]).wf(),
            decreases count - i,
        {
            assert(record@.doodads[i as int] == record.doodads[i as int]@);
            assert(rotations.deep_view()[i as int] == rotations[i as int].deep_view());
            let given = &rotations[i];
            let mut turns: Vec<Double> = Vec::new();
            let mut k: usize = 0;
            while k < given.len()
                invariant
                    k <= given.len(),
                    turns@ == given@.take(k as int),
                decreases given.len() - k,
            {
                turns.push(given[k]);
                k += 1;
                assert(turns@ =~= given@.take(k as int));
            }
            assert(given@.take(k as int) =~= given@);
            assert(turns@ =~= rotations.deep_view()[i as int]);
            let doodad = Doodad::from_record(
                &record.doodads[i],
                sizes[i].0,
                sizes[i].1,
                x_pos,
                y_pos,
                turns,
            );
            let ghost before = doodads.deep_view();
            doodads.push(doodad);
            i += 1;
            proof {
                assert(doodads.deep_view() =~= before.push(doodad@));
                assert(doodad@ == target.doodads[i - 1]);
                assert(doodads.deep_view() =~= target.doodads.take(i as int));
            }
        }
        self.background = Spritesheet::new(
            record.header.name.clone(),
            width,
            height,
            x_pos,
            y_pos,
            frames,
        );
        self.doodads = doodads;
        self.pointer = Pointer::Up;
        proof {
            assert(target.doodads.take(count as int) =~= target.doodads);
            assert forall|k: int| 0 <= k < self@.doodads.len() implies (
            #[trigger] self@.doodads[k]).wf() && self@.doodads[k].positions.len()
                == self@.background.frame_count by {
                assert(self@.doodads[k] == doodads[k]@);
                assert(record@.doodads[k].frames.len() == frames);
            }
        }
        true
    }

    /// Puts a background with `frame_count` frames, named `name` and for an
    /// image of `width` by `height` pixels, in the place of the old one, at
    /// the place of the old one. Every doodad gets as many frames: see
    /// `Doodad::set_frames_amount`. The background and every doodad start at
    /// frame 0 again.
    pub fn change_spritesheet(&mut self, name: String, width: u32, height: u32, frame_count: usize)
        requires
            old(self).wf(),
            frame_count > 0,
        ensures
            final(self).wf(),
            final(self)@ == (SceneView {
                background: SheetView {
                    name: name@,
                    source_rect: Rect::spec_new(
                        0,
                        0,
                        (width as int) / (frame_count as int),
                        height as int,
                    ),
                    frame_width: ((width as int) / (frame_count as int)) as nat,
                    position: Rect::spec_new(
                        old(self)@.background.position.x as int,
                        old(self)@.background.position.y as int,
                        (width as int) / (frame_count as int),
                        height as int,
                    ),
                    scale: Single::spec_one(),
                    rotation: Double::spec_zero(),
                    frame_count: frame_count as nat,
                    current: 0,
                },
                doodads: Seq::new(
                    old(self)@.doodads.len(),
                    |i: int|
                        DoodadView {
                            positions: resized(old(self)@.doodads[i].positions, frame_count as nat),
                            rotations: resized(old(self)@.doodads[i].rotations, frame_count as nat),
                            current: 0,
                            ..old(self)@.doodads[i]
                        },
                ),
                ..old(self)@
            }),
    {
        let position = self.background.real_position();
        self.background = Spritesheet::new(name, width, height, position.x, position.y, frame_count);
        let mut i: usize = 0;
        while i < self.doodads.len()
            invariant
                i <= self.doodads.len(),
                self.doodads.len() == old(self).doodads.len(),
                old(self).wf(),
                frame_count > 0,
                self.pointer == old(self).pointer,
                self.background@.wf(),
                self.background@.frame_count == frame_count,
                self.background@ == (SheetView {
                    name: name@,
                    source_rect: Rect::spec_new(
                        0,
                        0,
                        (width as int) / (frame_count as int),
                        height as int,
                    ),
                    frame_width: ((width as int) / (frame_count as int)) as nat,
                    position: Rect::spec_new(
                        old(self)@.background.position.x as int,
                        old(self)@.background.position.y as int,
                        (width as int) / (frame_count as int),
                        height as int,
                    ),
                    scale: Single::spec_one(),
                    rotation: Double::spec_zero(),
                    frame_count: frame_count as nat,
                    current: 0,
                }),
                forall|k: int|
                    0 <= k < i ==> #[trigger] self@.doodads[k] == (DoodadView {
                        positions: resized(old(self)@.doodads[k].positions, frame_count as nat),
                        rotations: resized(old(self)@.doodads[k].rotations, frame_count as nat),
                        current: 0,
                        ..old(self)@.doodads[k]
                    }),
                forall|k: int|
                    i <= k < self.doodads.len() ==> #[trigger] self@.doodads[k] == old(
                        self,
                    )@.doodads[k],
            decreases self.doodads.len() - i,
        {
            assert(self@.doodads[i as int] == self.doodads[i as int]@);
            let ghost before = self@.doodads;
            self.doodads[i].set_frames_amount(frame_count);
            self.doodads[i].set_frame(0);
            assert(self@.doodads =~= before.update(i as int, self.doodads[i as int]@));
            i += 1;
        }
        assert(self@.doodads =~= Seq::new(
            old(self)@.doodads.len(),
            |i: int|
                DoodadView {
                    positions: resized(old(self)@.doodads[i].positions, frame_count as nat),
                    rotations: resized(old(self)@.doodads[i].rotations, frame_count as nat),
                    current: 0,
                    ..old(self)@.doodads[i]
                },
        ));
    }

    /// The text of the scene for a file: the line of the background with the
    /// framerate, then a line for each doodad in order, with its offsets from
    /// the corner of the background. `scales[i]` is the text of the scale of
    /// doodad `i` and `rotations[i][k]` that of its rotation in frame `k`.
    pub fn encode(&self, framerate: i32, scales: &Vec<String>, rotations: &Vec<Vec<String>>) -> (text:
        String)
        requires
            self.wf(),
            scales.len() == self@.doodads.len(),
            rotations.len() == self@.doodads.len(),
            forall|i: int|
                0 <= i < rotations.len() ==> (#[trigger] rotations[i]).len()
                    == self@.background.frame_count,
        ensures
            text@ == scene_text(self@.record(framerate, scales.deep_view(), rotations.deep_view())),
    {
        let ghost record = self@.record(framerate, scales.deep_view(), rotations.deep_view());
        let mut out = self.background.serialize();
        push_i32(&mut out, framerate);
        let ghost head = out@;
        assert(head =~= header_line(record.header));
        let origin = self.background.real_position().top_left();
        assert(record.doodads.take(0) =~= Seq::<DoodadRecordView>::empty());
        assert(out@ =~= head + doodad_lines(record.doodads.take(0)));
        let mut i: usize = 0;
        while i < self.doodads.len()
            invariant
                i <= self.doodads.len(),
                self.wf(),
                scales.len() == self@.doodads.len(),
                rotations.len() == self@.doodads.len(),
                forall|k: int|
                    0 <= k < rotations.len() ==> (#[trigger] rotations[k]).len()
                        == self@.background.frame_count,
                origin == self@.origin(),
                record == self@.record(framerate, scales.deep_view(), rotations.deep_view()),
                out@ == head + doodad_lines(record.doodads.take(i as int)),
            decreases self.doodads.len() - i,
        {
            proof {
                reveal_strlit("\n");
                assert(self@.doodads[i as int] == self.doodads[i as int]@);
                assert(scales.deep_view()[i as int] == scales[i as int]@);
                assert(rotations.deep_view()[i as int] == rotations[i as int].deep_view());
            }
            let line = self.doodads[i].serialize(origin, scales[i].as_str(), &rotations[i]);
            out.append("\n");
            out.append(line.as_str());
            proof {
                let longer = record.doodads.take(i + 1);
                assert(longer.drop_last() =~= record.doodads.take(i as int));
                assert(out@ =~= head + doodad_lines(longer));
            }
            i += 1;
        }
        assert(record.doodads.take(i as int) =~= record.doodads);
        out
    }
}

/// A scene that is saved is read back as it was saved: the text that `encode`
/// gives for it stands for a background of the same name with as many frames
/// and the same framerate, and for as many doodads, each with its name, the
/// text of its scale and, frame by frame, its offsets from the corner of the
/// background and the text of its rotation. This holds where the names and the
/// texts can stand in a line.
pub proof fn lemma_saved_scene_is_read_back(
    scene: SceneView,
    framerate: i32,
    scales: Seq<Seq<char>>,
    rotations: Seq<Seq<Seq<char>>>,
)
    requires
        scene.wf(),
        plain_field(scene.background.name),
        scales.len() == scene.doodads.len(),
        rotations.len() == scene.doodads.len(),
        forall|i: int|
            0 <= i < scene.doodads.len() ==> plain_field((#[trigger] scene.doodads[i]).name)
                && plain_field(scales[i]) && rotations[i].len() == scene.background.frame_count,
        forall|i: int, k: int|
            0 <= i < scene.doodads.len() && 0 <= k < scene.background.frame_count ==> plain_token(
                #[trigger] rotations[i][k],
            ),
    ensures
        scene_of(scene_text(scene.record(framerate, scales, rotations))) == Ok::<
            SceneRecordView,
            FormatError,
        >(scene.record(framerate, scales, rotations)),
        scene.record(framerate, scales, rotations).doodads.len() == scene.doodads.len(),
        forall|i: int, k: int|
            0 <= i < scene.doodads.len() && 0 <= k < scene.background.frame_count ==> {
                let frame = #[trigger] scene.record(framerate, scales, rotations).doodads[i].frames[k];
                &&& frame.dx == scene.doodads[i].offset(scene.origin(), k).x
                &&& frame.dy == scene.doodads[i].offset(scene.origin(), k).y
                &&& frame.rotation == rotations[i][k]
            },
{
    let record = scene.record(framerate, scales, rotations);
    assert forall|i: int| 0 <= i < record.doodads.len() implies crate::codec::writable_doodad(
        #[trigger] record.doodads[i],
    ) && record.doodads[i].frames.len() == record.header.frame_count by {
        let doodad = record.doodads[i];
        assert(scene.doodads[i].wf());
        assert forall|k: int| 0 <= k < doodad.frames.len() implies plain_token(
            (#[trigger] doodad.frames[k]).rotation,
        ) by {
            assert(doodad.frames[k].rotation == rotations[i][k]);
        }
    }
    lemma_decode_encode(record);
}

/// A scene that was loaded is saved as it was read: written with the
/// framerate and the texts of the rotations that the file held, it gives the
/// header of the file again and for each doodad its name and, frame by frame,
/// its offsets and the text of its rotation. Only the texts of the scales are
/// those that are given now. This holds where the place of the background, the
/// offsets and the places that they lead to are in the coordinate range.
pub proof fn lemma_loaded_scene_is_saved_alike(
    record: SceneRecordView,
    x: int,
    y: int,
    width: int,
    height: int,
    sizes: Seq<(u32, u32)>,
    rotations: Seq<Seq<Double>>,
    scales: Seq<Seq<char>>,
)
    requires
        loadable(record, sizes, rotations),
        scales.len() == record.doodads.len(),
        in_coordinate_range(x),
        in_coordinate_range(y),
        forall|i: int, k: int|
            0 <= i < record.doodads.len() && 0 <= k < record.doodads[i].frames.len() ==> {
                let frame = #[trigger] record.doodads[i].frames[k];
                &&& in_coordinate_range(frame.dx as int)
                &&& in_coordinate_range(frame.dy as int)
                &&& in_coordinate_range(x + frame.dx)
                &&& in_coordinate_range(y + frame.dy)
            },
    ensures
        loaded(record, x, y, width, height, sizes, rotations).record(
            record.header.framerate,
            scales,
            Seq::new(
                record.doodads.len(),
                |i: int|
                    Seq::new(
                        record.doodads[i].frames.len(),
                        |k: int| record.doodads[i].frames[k].rotation,
                    ),
            ),
        ) == (SceneRecordView {
            header: record.header,
            doodads: Seq::new(
                record.doodads.len(),
                |i: int| DoodadRecordView { scale: scales[i], ..record.doodads[i] },
            ),
        }),
{
    let scene = loaded(record, x, y, width, height, sizes, rotations);
    let texts = Seq::new(
        record.doodads.len(),
        |i: int|
            Seq::new(record.doodads[i].frames.len(), |k: int| record.doodads[i].frames[k].rotation),
    );
    let again = scene.record(record.header.framerate, scales, texts);
    let expected = Seq::new(
        record.doodads.len(),
        |i: int| DoodadRecordView { scale: scales[i], ..record.doodads[i] },
    );
    assert forall|i: int| 0 <= i < record.doodads.len() implies again.doodads[i] == expected[i] by {
        let frames = record.doodads[i].frames;
        assert forall|k: int| 0 <= k < frames.len() implies in_coordinate_range(
            (#[trigger] frames[k]).dx as int,
        ) && in_coordinate_range(frames[k].dy as int) && in_coordinate_range(x + frames[k].dx)
            && in_coordinate_range(y + frames[k].dy) by {
            assert(frames[k] == record.doodads[i].frames[k]);
        }
        lemma_offsets_restored(
            scene.doodads[i],
            frames,
            x,
            y,
            sizes[i].0 as int,
            sizes[i].1 as int,
            scene.background.position,
        );
        assert(texts[i] =~= Seq::new(frames.len(), |k: int| frames[k].rotation));
    }
    assert(again.doodads =~= expected);
}

/// A scene that is saved and loaded again comes back with what a file keeps.
/// The text that `encode` gives is read as the record that was written; loaded
/// from that record with the background at `(x, y)`, the scene has a
/// background of the same name with as many frames, the same framerate in its
/// header, and as many doodads in the same order, each with its name, with a
/// frame for each frame of the background and, frame by frame, as far from
/// the corner of the background as it was. The rotations are those that are
/// given to `load`: here those of the scene, as they are where the texts of
/// the rotations are read as the rotations that they were written from. This
/// holds where the names and the texts can stand in a line and the new places
/// are in the coordinate range.
pub proof fn lemma_saved_then_loaded(
    scene: SceneView,
    framerate: i32,
    scales: Seq<Seq<char>>,
    rotations: Seq<Seq<Seq<char>>>,
    x: int,
    y: int,
    width: int,
    height: int,
    sizes: Seq<(u32, u32)>,
)
    requires
        scene.wf(),
        plain_field(scene.background.name),
        scales.len() == scene.doodads.len(),
        rotations.len() == scene.doodads.len(),
        sizes.len() == scene.doodads.len(),
        forall|i: int|
            0 <= i < scene.doodads.len() ==> plain_field((#[trigger] scene.doodads[i]).name)
                && plain_field(scales[i]) && rotations[i].len() == scene.background.frame_count,
        forall|i: int, k: int|
            0 <= i < scene.doodads.len() && 0 <= k < scene.background.frame_count ==> plain_token(
                #[trigger] rotations[i][k],
            ),
        in_coordinate_range(x),
        in_coordinate_range(y),
        forall|i: int, k: int|
            0 <= i < scene.doodads.len() && 0 <= k < scene.background.frame_count ==> {
                let offset = #[trigger] scene.doodads[i].offset(scene.origin(), k);
                in_coordinate_range(x + offset.x) && in_coordinate_range(y + offset.y)
            },
    ensures
        ({
            let record = scene.record(framerate, scales, rotations);
            let turns = Seq::new(scene.doodads.len(), |i: int| scene.doodads[i].rotations);
            let after = loaded(record, x, y, width, height, sizes, turns);
            &&& scene_of(scene_text(record)) == Ok::<SceneRecordView, FormatError>(record)
            &&& loadable(record, sizes, turns)
            &&& record.header.framerate == framerate
            &&& after.background.name == scene.background.name
            &&& after.background.frame_count == scene.background.frame_count
            &&& after.doodads.len() == scene.doodads.len()
            &&& forall|i: int|
                0 <= i < scene.doodads.len() ==> (#[trigger] after.doodads[i]).name
                    == scene.doodads[i].name && after.doodads[i].positions.len()
                    == scene.background.frame_count && after.doodads[i].rotations
                    == scene.doodads[i].rotations
            &&& forall|i: int, k: int|
                0 <= i < scene.doodads.len() && 0 <= k < scene.background.frame_count
                    ==> #[trigger] after.doodads[i].offset(after.origin(), k)
                    == scene.doodads[i].offset(scene.origin(), k)
        }),
{
    let record = scene.record(framerate, scales, rotations);
    let turns = Seq::new(scene.doodads.len(), |i: int| scene.doodads[i].rotations);
    let after = loaded(record, x, y, width, height, sizes, turns);
    lemma_saved_scene_is_read_back(scene, framerate, scales, rotations);
    assert forall|i: int| 0 <= i < record.doodads.len() implies (
    #[trigger] record.doodads[i]).frames.len() == record.header.frame_count && turns[i].len()
        == record.header.frame_count by {
        assert(scene.doodads[i].wf());
    }
    assert forall|i: int, k: int|
        0 <= i < scene.doodads.len() && 0 <= k < scene.background.frame_count
            implies #[trigger] after.doodads[i].offset(after.origin(), k)
        == scene.doodads[i].offset(scene.origin(), k) by {
        assert(scene.doodads[i].wf());
        let offset = scene.doodads[i].offset(scene.origin(), k);
        assert(in_coordinate_range(x + offset.x) && in_coordinate_range(y + offset.y));
        assert(record.doodads[i].frames[k].dx == offset.x);
        assert(record.doodads[i].frames[k].dy == offset.y);
    }
    assert forall|i: int| 0 <= i < scene.doodads.len() implies (#[trigger] after.doodads[i]).name
        == scene.doodads[i].name && after.doodads[i].positions.len()
        == scene.background.frame_count && after.doodads[i].rotations
        == scene.doodads[i].rotations by {
        assert(scene.doodads[i].wf());
    }
}

} // verus!
