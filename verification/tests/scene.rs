use doodad_editor::codec::{decode, FormatError};
use doodad_editor::fragment::{Doodad, Fragment, Spritesheet};
use doodad_editor::mymath::{Point, Rect};
use doodad_editor::number::{Double, Single};
use doodad_editor::scene::{draw_order, outline, Pointer, Scene};

fn pt(x: i32, y: i32) -> Point {
    Point { x, y }
}

fn background(frames: usize) -> Spritesheet {
    Spritesheet::new("animbg".to_string(), 600, 80, 400, 20, frames)
}

/// A scene with doodad "a" at (100, 100) and doodad "b" at (300, 200), both 40
/// by 30 pixels.
fn two_doodads(frames: usize) -> Scene {
    let mut scene = Scene::new(background(frames));
    scene.add_doodad("a".to_string(), 40, 30, 100, 100);
    scene.add_doodad("b".to_string(), 40, 30, 300, 200);
    scene
}

fn turn(x: i32, y: i32, degrees: Single) -> (i32, i32) {
    let radians = f32::from_bits(degrees.to_bits()) * (3.14159 / 180.0);
    let xnew = ((x as f32 * radians.cos()) - (y as f32 * radians.sin())) as i32;
    let ynew = ((x as f32 * radians.sin()) + (y as f32 * radians.cos())) as i32;
    (xnew, ynew)
}

fn extent(length: u32, scale: Single) -> (i32, i32) {
    let scale = f32::from_bits(scale.to_bits());
    ((length as f32 * scale / 2.0) as i32, (length as f32 * scale) as i32)
}

fn narrow(rotation: Double) -> Single {
    Single::from_bits((f64::from_bits(rotation.to_bits()) as f32).to_bits())
}

fn click(scene: &mut Scene, point: Point) -> Option<usize> {
    scene.pointer_down(point, &narrow, &extent, &turn)
}

fn names(scene: &Scene) -> Vec<String> {
    (0..scene.len()).map(|i| scene.doodad(i).name().clone()).collect()
}

#[test]
fn new_scene_is_empty() {
    let scene = Scene::new(background(6));
    assert_eq!(scene.len(), 0);
    assert!(scene.active().is_none());
    assert_eq!(scene.pointer(), Pointer::Up);
    assert_eq!(scene.background().get_frames_amount(), 6);
}

#[test]
fn add_doodad_gives_it_the_frames_of_the_background() {
    let scene = two_doodads(6);
    assert_eq!(names(&scene), vec!["a", "b"]);
    assert_eq!(scene.doodad(1).get_frames_amount(), 6);
    for frame in 0..6 {
        assert_eq!(scene.doodad(1).position_at(frame), Rect { x: 300, y: 200, w: 40, h: 30 });
        assert_eq!(scene.doodad(1).rotation_at(frame), Double::zero());
    }
    assert_eq!(scene.active().unwrap().name(), "a");
}

#[test]
fn click_picks_the_first_in_order() {
    // "over" lies 10 pixels right of "near" and covers most of it.
    let mut scene = Scene::new(background(1));
    scene.add_doodad("far".to_string(), 40, 30, 300, 200);
    scene.add_doodad("near".to_string(), 40, 30, 100, 100);
    scene.add_doodad("over".to_string(), 40, 30, 110, 100);
    assert_eq!(click(&mut scene, pt(125, 110)), Some(1));
    assert_eq!(names(&scene), vec!["near", "far", "over"]);
    scene.bring_to_front(2);
    assert_eq!(names(&scene), vec!["over", "near", "far"]);
    assert_eq!(click(&mut scene, pt(125, 110)), Some(0));
    assert_eq!(click(&mut scene, pt(105, 110)), Some(1));
    assert_eq!(names(&scene), vec!["near", "over", "far"]);
    assert_eq!(click(&mut scene, pt(320, 210)), Some(2));
    assert_eq!(names(&scene), vec!["far", "near", "over"]);
    assert_eq!(click(&mut scene, pt(500, 437)), None);
    assert_eq!(names(&scene), vec!["far", "near", "over"]);
    let mut empty = Scene::new(background(1));
    assert_eq!(click(&mut empty, pt(1, 1)), None);
    assert_eq!(empty.pointer(), Pointer::Panning);
}

#[test]
fn click_asks_for_the_outline_of_the_current_frame_and_stops_at_the_hit() {
    let mut scene = two_doodads(3);
    scene.add_doodad("c".to_string(), 40, 30, 500, 500);
    scene.set_frame(1);
    scene.set_rotation(Double::from_bits(90.0f64.to_bits()));
    scene.set_scale(Single::from_bits(2.0f32.to_bits()));
    let rotations = std::cell::RefCell::new(Vec::new());
    let extents = std::cell::RefCell::new(Vec::new());
    let angles = std::cell::RefCell::new(Vec::new());
    let narrowing = |rotation: Double| {
        rotations.borrow_mut().push(rotation);
        narrow(rotation)
    };
    let scaling = |length: u32, scale: Single| {
        extents.borrow_mut().push((length, scale));
        extent(length, scale)
    };
    let upright = |x: i32, y: i32, degrees: Single| {
        angles.borrow_mut().push(degrees);
        (x, y)
    };
    assert_eq!(scene.pointer_down(pt(320, 210), &narrowing, &scaling, &upright), Some(1));
    let two = Single::from_bits(2.0f32.to_bits());
    let quarter = Single::from_bits(90.0f32.to_bits());
    // Doodad a was asked for first, with its rotation and its scale in frame
    // 1, then doodad b, and doodad c was not: the click had hit b.
    assert_eq!(*rotations.borrow(), vec![Double::from_bits(90.0f64.to_bits()), Double::zero()]);
    assert_eq!(
        *extents.borrow(),
        vec![(40, two), (30, two), (40, Single::one()), (30, Single::one())]
    );
    assert_eq!(*angles.borrow(), vec![quarter, quarter, quarter, quarter, Single::zero(), Single::zero(), Single::zero(), Single::zero()]);
    scene.pointer_up();
    scene.set_frame(2);
    rotations.borrow_mut().clear();
    assert_eq!(scene.pointer_down(pt(700, 600), &narrowing, &scaling, &upright), None);
    // In frame 2 doodad a has no rotation; its scale is that of all frames.
    assert_eq!(*rotations.borrow(), vec![Double::zero(), Double::zero(), Double::zero()]);
    assert_eq!(extents.borrow()[4..], [(40, Single::one()), (30, Single::one()), (40, two), (30, two), (40, Single::one()), (30, Single::one())]);
}

#[test]
fn click_selects_and_brings_to_front() {
    let mut scene = two_doodads(6);
    // A click inside b picks it and moves it to the front.
    assert_eq!(click(&mut scene, pt(320, 210)), Some(1));
    assert_eq!(names(&scene), vec!["b", "a"]);
    assert_eq!(scene.pointer(), Pointer::Dragging);
    scene.pointer_up();
    assert_eq!(scene.pointer(), Pointer::Up);
    // A click outside both leaves b at the front.
    assert_eq!(click(&mut scene, pt(600, 500)), None);
    assert_eq!(names(&scene), vec!["b", "a"]);
    assert_eq!(scene.pointer(), Pointer::Panning);
}

#[test]
fn click_selects_a_turned_and_scaled_doodad() {
    let mut scene = two_doodads(1);
    // Turn b by 45 degrees and draw it at twice its size.
    assert_eq!(click(&mut scene, pt(320, 210)), Some(1));
    scene.pointer_up();
    scene.set_rotation(Double::from_bits(45.0f64.to_bits()));
    scene.set_scale(Single::from_bits(2.0f32.to_bits()));
    // The pivot of b is (340, 230), and the turned outline has the corners
    // (333, 181), (389, 237), (347, 279) and (291, 223). The point (345, 270)
    // lies in it and outside the upright outline, which ends at y = 260.
    assert_eq!(
        scene.active_outline(&narrow, &extent, &turn).unwrap(),
        outline([pt(333, 181), pt(389, 237), pt(347, 279), pt(291, 223)])
    );
    assert_eq!(click(&mut scene, pt(345, 270)), Some(0));
    scene.pointer_up();
    // A point near the corner (380, 200) of the upright outline lies outside
    // the turned one.
    assert_eq!(click(&mut scene, pt(378, 202)), None);
    assert_eq!(names(&scene), vec!["b", "a"]);
}

#[test]
fn bring_to_front_keeps_the_order_of_the_others() {
    let mut scene = two_doodads(2);
    scene.add_doodad("c".to_string(), 4, 4, 0, 0);
    scene.add_doodad("d".to_string(), 4, 4, 0, 0);
    scene.bring_to_front(2);
    assert_eq!(names(&scene), vec!["c", "a", "b", "d"]);
    scene.bring_to_front(0);
    assert_eq!(names(&scene), vec!["c", "a", "b", "d"]);
    scene.bring_to_front(3);
    assert_eq!(names(&scene), vec!["d", "c", "a", "b"]);
}

#[test]
fn dragging_moves_the_active_doodad_in_its_frame() {
    let mut scene = two_doodads(3);
    scene.set_frame(2);
    click(&mut scene, pt(320, 210));
    assert!(scene.can_move(5, -6));
    scene.pointer_move(5, -6);
    assert_eq!(scene.doodad(0).name(), "b");
    assert_eq!(scene.doodad(0).position_at(2), Rect { x: 305, y: 194, w: 40, h: 30 });
    assert_eq!(scene.doodad(0).position_at(0), Rect { x: 300, y: 200, w: 40, h: 30 });
    assert_eq!(scene.doodad(1).position_at(2), Rect { x: 100, y: 100, w: 40, h: 30 });
    assert_eq!(scene.background().real_position(), Rect { x: 400, y: 20, w: 200, h: 80 });
    scene.pointer_up();
    scene.pointer_move(50, 50);
    assert_eq!(scene.doodad(0).position_at(2), Rect { x: 305, y: 194, w: 40, h: 30 });
}

#[test]
fn panning_moves_the_whole_scene() {
    let mut scene = two_doodads(2);
    assert_eq!(click(&mut scene, pt(700, 600)), None);
    scene.pointer_move(-10, 7);
    assert_eq!(scene.background().real_position(), Rect { x: 390, y: 27, w: 300, h: 80 });
    for frame in 0..2 {
        assert_eq!(scene.doodad(0).position_at(frame), Rect { x: 90, y: 107, w: 40, h: 30 });
        assert_eq!(scene.doodad(1).position_at(frame), Rect { x: 290, y: 207, w: 40, h: 30 });
    }
    // What would go below 0 stays where it is; the rest moves on.
    scene.pointer_move(-200, -27);
    assert_eq!(scene.background().real_position(), Rect { x: 190, y: 0, w: 300, h: 80 });
    for frame in 0..2 {
        assert_eq!(scene.doodad(0).position_at(frame), Rect { x: 90, y: 80, w: 40, h: 30 });
        assert_eq!(scene.doodad(1).position_at(frame), Rect { x: 90, y: 180, w: 40, h: 30 });
    }
}

#[test]
fn can_move_tells_whether_every_coordinate_fits() {
    let mut scene = two_doodads(2);
    assert!(scene.can_move(i32::MAX, i32::MAX));
    assert_eq!(click(&mut scene, pt(700, 600)), None);
    assert!(scene.can_move(i32::MAX - 400, i32::MAX - 200));
    assert!(!scene.can_move(i32::MAX - 399, 0));
    assert!(!scene.can_move(0, i32::MAX - 199));
    scene.pointer_up();
    click(&mut scene, pt(120, 110));
    assert!(scene.can_move(i32::MAX - 100, 0));
    assert!(!scene.can_move(i32::MAX - 99, 0));
}

#[test]
fn set_scale_and_rotation_go_to_the_active_doodad() {
    let mut scene = two_doodads(2);
    scene.set_frame(1);
    scene.set_scale(Single::from_bits(77));
    scene.set_rotation(Double::from_bits(88));
    assert_eq!(scene.doodad(0).get_scale(), Single::from_bits(77));
    assert_eq!(scene.doodad(0).rotation_at(1), Double::from_bits(88));
    assert_eq!(scene.doodad(0).rotation_at(0), Double::zero());
    assert_eq!(scene.doodad(1).get_scale(), Single::one());
    assert_eq!(scene.doodad(1).rotation_at(1), Double::zero());
    let mut empty = Scene::new(background(2));
    empty.set_scale(Single::from_bits(77));
    empty.set_rotation(Double::from_bits(88));
    assert_eq!(empty.len(), 0);
}

#[test]
fn set_frame_steps_everything_together() {
    let mut scene = two_doodads(6);
    scene.set_frame(8);
    assert_eq!(scene.background().current_frame_index(), 2);
    assert_eq!(scene.background().get_source_rect().x, 200);
    assert_eq!(scene.doodad(0).current_frame_index(), 2);
    assert_eq!(scene.doodad(1).current_frame_index(), 2);
}

#[test]
fn change_spritesheet_resizes_every_doodad() {
    let mut scene = two_doodads(3);
    scene.set_frame(1);
    click(&mut scene, pt(120, 110));
    scene.pointer_move(7, 7);
    scene.pointer_up();
    scene.set_frame(2);
    scene.change_spritesheet("other".to_string(), 500, 60, 5);
    assert_eq!(scene.background().name(), "other");
    assert_eq!(scene.background().get_frames_amount(), 5);
    assert_eq!(scene.background().real_position(), Rect { x: 400, y: 20, w: 100, h: 60 });
    assert_eq!(scene.background().current_frame_index(), 0);
    for i in 0..2 {
        assert_eq!(scene.doodad(i).get_frames_amount(), 5);
        assert_eq!(scene.doodad(i).current_frame_index(), 0);
    }
    let a = scene.doodad(0);
    assert_eq!(a.position_at(0), Rect { x: 100, y: 100, w: 40, h: 30 });
    assert_eq!(a.position_at(1), Rect { x: 107, y: 107, w: 40, h: 30 });
    assert_eq!(a.position_at(3), a.position_at(0));
    assert_eq!(a.position_at(4), a.position_at(0));
    scene.change_spritesheet("small".to_string(), 500, 60, 1);
    assert_eq!(scene.doodad(0).get_frames_amount(), 1);
    assert_eq!(scene.doodad(0).position_at(0), Rect { x: 100, y: 100, w: 40, h: 30 });
}

#[test]
fn clear_and_reset() {
    let mut scene = two_doodads(3);
    click(&mut scene, pt(120, 110));
    scene.clear_doodads();
    assert_eq!(scene.len(), 0);
    assert_eq!(scene.pointer(), Pointer::Panning);
    scene.add_doodad("c".to_string(), 4, 4, 0, 0);
    scene.reset(background(2));
    assert_eq!(scene.len(), 0);
    assert_eq!(scene.pointer(), Pointer::Up);
    assert_eq!(scene.background().get_frames_amount(), 2);
}

#[test]
fn draw_order_is_back_to_front() {
    assert_eq!(draw_order(4), vec![3, 2, 1, 0]);
    assert_eq!(draw_order(1), vec![0]);
    assert_eq!(draw_order(0), Vec::<usize>::new());
}

#[test]
fn active_outline_is_that_of_the_first_doodad() {
    let scene = two_doodads(1);
    assert_eq!(
        scene.active_outline(&narrow, &extent, &turn),
        Some(outline([pt(100, 100), pt(140, 100), pt(140, 130), pt(100, 130)]))
    );
    assert_eq!(Scene::new(background(1)).active_outline(&narrow, &extent, &turn), None);
}

#[test]
fn outline_closes_the_quad() {
    let quad = [pt(1, 2), pt(3, 4), pt(5, 6), pt(7, 8)];
    assert_eq!(
        outline(quad),
        [(pt(1, 2), pt(3, 4)), (pt(3, 4), pt(5, 6)), (pt(5, 6), pt(7, 8)), (pt(7, 8), pt(1, 2))]
    );
}

fn rotation_texts(scene: &Scene) -> Vec<Vec<String>> {
    (0..scene.len())
        .map(|i| {
            let d = scene.doodad(i);
            (0..d.get_frames_amount())
                .map(|k| f64::from_bits(d.rotation_at(k).to_bits()).to_string())
                .collect()
        })
        .collect()
}

fn scale_texts(scene: &Scene) -> Vec<String> {
    (0..scene.len())
        .map(|i| f32::from_bits(scene.doodad(i).get_scale().to_bits()).to_string())
        .collect()
}

fn load(text: &str, default_x: i32, default_y: i32) -> Result<Scene, FormatError> {
    let record = decode(text)?;
    let sizes = vec![(40, 30); record.doodads.len()];
    let rotations: Vec<Vec<Double>> = record
        .doodads
        .iter()
        .map(|d| {
            d.frames
                .iter()
                .map(|f| Double::from_bits(f.rotation.parse::<f64>().unwrap().to_bits()))
                .collect()
        })
        .collect();
    let mut scene = Scene::new(Spritesheet::new("old".to_string(), 1, 1, 0, 0, 1));
    assert!(scene.load(&record, default_x, default_y, 600, 80, &sizes, &rotations));
    Ok(scene)
}

#[test]
fn encode_writes_offsets_from_the_background() {
    let mut scene = two_doodads(2);
    scene.set_frame(1);
    scene.set_rotation(Double::from_bits(22.5f64.to_bits()));
    scene.set_scale(Single::from_bits(1.5f32.to_bits()));
    let text = scene.encode(500, &scale_texts(&scene), &rotation_texts(&scene));
    assert_eq!(text, "animbg;2;500\na;1.5;-300,80,0/-300,80,22.5/\nb;1;-100,180,0/-100,180,0/");
}

#[test]
fn a_saved_scene_is_loaded_with_the_same_frames() {
    for frames in [1usize, 6] {
        let mut scene = two_doodads(frames);
        for frame in 0..frames {
            scene.set_frame(frame);
            click(&mut scene, pt(120, 110));
            scene.pointer_move(3 * frame as i32, -(frame as i32));
            scene.pointer_up();
            scene.set_rotation(Double::from_bits((frame as f64 * 12.5).to_bits()));
        }
        scene.set_scale(Single::from_bits(3.0f32.to_bits()));
        let text = scene.encode(125, &scale_texts(&scene), &rotation_texts(&scene));
        let record = decode(&text).unwrap();
        assert_eq!(record.header.frame_count, frames);
        assert_eq!(record.header.framerate, 125);
        assert_eq!(record.doodads.len(), 2);
        // Loaded at another place, the doodads lie as far from the background.
        let loaded = load(&text, 50, 60).unwrap();
        assert_eq!(loaded.len(), 2);
        assert_eq!(loaded.background().real_position().top_left(), pt(50, 60));
        for i in 0..2 {
            let was = scene.doodad(i);
            let is = loaded.doodad(i);
            assert_eq!(is.name(), was.name());
            assert_eq!(is.get_frames_amount(), frames);
            for k in 0..frames {
                let before = was.position_at(k).top_left().minus(pt(400, 20));
                let after = is.position_at(k).top_left().minus(pt(50, 60));
                assert_eq!(after, before);
                assert_eq!(is.rotation_at(k), was.rotation_at(k));
            }
            // The scale does not come back.
            assert_eq!(is.get_scale(), Single::one());
        }
        // Written again, only the scale differs.
        let again = loaded.encode(125, &scale_texts(&scene), &rotation_texts(&loaded));
        assert_eq!(again, text);
    }
}

#[test]
fn from_record_places_the_frames_at_their_offsets() {
    let record = decode("bg;2;10\nd;9;5,-5,0/-400,1000,90/").unwrap();
    let d = Doodad::from_record(&record.doodads[0], 8, 9, 100, 200, vec![Double::from_bits(1), Double::from_bits(2)]);
    assert_eq!(d.name(), "d");
    assert_eq!(d.position_at(0), Rect { x: 105, y: 195, w: 8, h: 9 });
    assert_eq!(d.position_at(1), Rect { x: -300, y: 1200, w: 8, h: 9 });
    assert_eq!(d.rotation_at(1), Double::from_bits(2));
    assert_eq!(d.get_scale(), Single::one());
    assert_eq!(d.get_source_rect(), Rect { x: 0, y: 0, w: 8, h: 9 });
    assert_eq!(d.current_frame_index(), 0);
}

#[test]
fn load_builds_the_scene_of_the_record() {
    let record = decode("bg;2;10\nd;9;5,-5,0/-400,1000,90/\ne;1;0,0,0/1,1,1/").unwrap();
    let mut scene = two_doodads(3);
    click(&mut scene, pt(120, 110));
    let rotations = vec![
        vec![Double::from_bits(1), Double::from_bits(2)],
        vec![Double::from_bits(3), Double::from_bits(4)],
    ];
    assert!(scene.load(&record, 100, 200, 600, 80, &vec![(8, 9), (10, 11)], &rotations));
    assert_eq!(scene.pointer(), Pointer::Up);
    let bg = scene.background();
    assert_eq!(bg.name(), "bg");
    assert_eq!(bg.get_frames_amount(), 2);
    assert_eq!(bg.real_position(), Rect { x: 100, y: 200, w: 300, h: 80 });
    assert_eq!(bg.get_source_rect(), Rect { x: 0, y: 0, w: 300, h: 80 });
    assert_eq!(bg.current_frame_index(), 0);
    assert_eq!(names(&scene), vec!["d", "e"]);
    let d = scene.doodad(0);
    assert_eq!(d.position_at(0), Rect { x: 105, y: 195, w: 8, h: 9 });
    assert_eq!(d.position_at(1), Rect { x: -300, y: 1200, w: 8, h: 9 });
    assert_eq!(d.rotation_at(0), Double::from_bits(1));
    assert_eq!(d.rotation_at(1), Double::from_bits(2));
    assert_eq!(d.get_scale(), Single::one());
    assert_eq!(d.get_source_rect(), Rect { x: 0, y: 0, w: 8, h: 9 });
    let e = scene.doodad(1);
    assert_eq!(e.position_at(1), Rect { x: 101, y: 201, w: 10, h: 11 });
    assert_eq!(e.rotation_at(1), Double::from_bits(4));
}

#[test]
fn load_refuses_parts_that_do_not_fit() {
    let record = decode("bg;2;10\nd;9;5,-5,0/-400,1000,90/").unwrap();
    let two = vec![Double::zero(), Double::zero()];
    let mut scene = two_doodads(3);
    assert!(!scene.load(&record, 0, 0, 600, 80, &Vec::new(), &vec![two.clone()]));
    assert!(!scene.load(&record, 0, 0, 600, 80, &vec![(8, 9)], &Vec::new()));
    assert!(!scene.load(&record, 0, 0, 600, 80, &vec![(8, 9)], &vec![vec![Double::zero()]]));
    assert!(!scene.load(&record, 0, 0, 600, 80, &vec![(8, 9), (8, 9)], &vec![two.clone(), two.clone()]));
    let mut odd = record.clone();
    odd.doodads[0].frames.pop();
    assert!(!scene.load(&odd, 0, 0, 600, 80, &vec![(8, 9)], &vec![two.clone()]));
    let mut none = record.clone();
    none.header.frame_count = 0;
    none.doodads.clear();
    assert!(!scene.load(&none, 0, 0, 600, 80, &Vec::new(), &Vec::new()));
    assert_eq!(names(&scene), vec!["a", "b"]);
    assert_eq!(scene.background().get_frames_amount(), 3);
    assert!(scene.load(&record, 0, 0, 600, 80, &vec![(8, 9)], &vec![two]));
    assert_eq!(names(&scene), vec!["d"]);
}

#[test]
fn load_places_far_offsets_at_the_bound() {
    let record = decode("bg;1;10\nd;1;2147483647,-2147483648,0/").unwrap();
    let mut scene = two_doodads(1);
    assert!(scene.load(&record, 5, -5, 10, 10, &vec![(8, 9)], &vec![vec![Double::zero()]]));
    assert_eq!(scene.doodad(0).position_at(0), Rect { x: 1073741823, y: -1073741824, w: 8, h: 9 });
}
