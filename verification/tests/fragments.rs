use doodad_editor::fragment::{Doodad, Fragment, Spritesheet};
use doodad_editor::mymath::{Point, Rect, MAX_COORD};
use doodad_editor::number::{Double, Single};

fn sheet() -> Spritesheet {
    Spritesheet::new("animbg".to_string(), 600, 80, 400, 20, 6)
}

fn doodad(frames: u32) -> Doodad {
    Doodad::new("arrow".to_string(), 32, 16, 100, 100, frames)
}

fn texts(items: &[&str]) -> Vec<String> {
    items.iter().map(|s| s.to_string()).collect()
}

#[test]
fn stand_ins_carry_bits() {
    assert_eq!(Single::one().to_bits(), 1.0f32.to_bits());
    assert_eq!(Single::zero().to_bits(), 0.0f32.to_bits());
    assert_eq!(Double::zero().to_bits(), 0.0f64.to_bits());
    assert_eq!(Single::from_bits(2.5f32.to_bits()).to_bits(), 2.5f32.to_bits());
    assert_eq!(Double::from_bits(90.25f64.to_bits()).to_bits(), 90.25f64.to_bits());
    assert_eq!(Double::from_bits(7), Double { bits: 7 });
}

#[test]
fn spritesheet_new_cuts_the_image_into_tiles() {
    let s = sheet();
    assert_eq!(s.get_frames_amount(), 6);
    assert_eq!(s.name(), "animbg");
    assert_eq!(s.current_frame_index(), 0);
    assert_eq!(s.get_source_rect(), Rect { x: 0, y: 0, w: 100, h: 80 });
    assert_eq!(s.real_position(), Rect { x: 400, y: 20, w: 100, h: 80 });
    assert_eq!(s.get_scale(), Single::one());
    assert_eq!(s.get_rotation(), Double::zero());
}

#[test]
fn spritesheet_tile_width_is_rounded_down() {
    let s = Spritesheet::new("s".to_string(), 100, 10, 0, 0, 3);
    assert_eq!(s.get_source_rect().width(), 33);
    let narrow = Spritesheet::new("s".to_string(), 2, 10, 0, 0, 5);
    // A tile of width 0 makes a rectangle of width 1, the least there is.
    assert_eq!(narrow.get_source_rect().width(), 1);
    narrow.real_position();
}

#[test]
fn set_frame_wraps_by_modulo() {
    let mut s = sheet();
    s.set_frame(8);
    assert_eq!(s.current_frame_index(), 2);
    assert_eq!(s.get_source_rect(), Rect { x: 200, y: 0, w: 100, h: 80 });
    let mut d = doodad(6);
    d.set_frame(8);
    assert_eq!(d.current_frame_index(), 2);
    d.set_frame(6);
    assert_eq!(d.current_frame_index(), 0);
    d.set_frame(5);
    assert_eq!(d.current_frame_index(), 5);
    d.set_frame(usize::MAX);
    assert_eq!(d.current_frame_index(), usize::MAX % 6);
}

#[test]
fn spritesheet_set_frame_slides_the_source_window_only() {
    let mut s = sheet();
    let before = s.real_position();
    for frame in 0..12 {
        s.set_frame(frame);
        assert_eq!(s.get_source_rect().x, (frame % 6) as i32 * 100);
        assert_eq!(s.real_position(), before);
    }
}

#[test]
fn spritesheet_source_window_stops_at_the_coordinate_bound() {
    let mut s = Spritesheet::new("wide".to_string(), u32::MAX, 10, 0, 0, 2);
    s.set_frame(1);
    assert_eq!(s.get_source_rect().x, MAX_COORD);
}

#[test]
fn spritesheet_change_position_is_held_back_at_the_near_edge() {
    let mut s = Spritesheet::new("s".to_string(), 60, 10, 5, 0, 6);
    // A move that would take x below 0 is left out; y does not move at all.
    s.change_position(-10, 0);
    assert_eq!(s.real_position(), Rect { x: 5, y: 0, w: 10, h: 10 });
    // x stays at 0 or above and moves; y would go below 0 and stays.
    s.change_position(-3, -3);
    assert_eq!(s.real_position(), Rect { x: 2, y: 0, w: 10, h: 10 });
    s.change_position(-2, 4);
    assert_eq!(s.real_position(), Rect { x: 0, y: 4, w: 10, h: 10 });
    s.change_position(-1, -1);
    assert_eq!(s.real_position(), Rect { x: 0, y: 3, w: 10, h: 10 });
    s.change_position(20, 0);
    assert_eq!(s.real_position(), Rect { x: 20, y: 3, w: 10, h: 10 });
    s.change_position(-20, -3);
    assert_eq!(s.real_position(), Rect { x: 0, y: 0, w: 10, h: 10 });
}

#[test]
fn spritesheet_below_zero_moves_by_positive_amounts_only() {
    let mut s = Spritesheet::new("s".to_string(), 60, 10, -8, -8, 6);
    s.change_position(3, -1);
    assert_eq!(s.real_position(), Rect { x: -5, y: -8, w: 10, h: 10 });
    s.change_position(0, 2);
    assert_eq!(s.real_position(), Rect { x: -5, y: -6, w: 10, h: 10 });
    s.change_position(5, 10);
    assert_eq!(s.real_position(), Rect { x: 0, y: 4, w: 10, h: 10 });
}

#[test]
fn can_change_position_tells_whether_the_sum_fits() {
    let mut s = Spritesheet::new("s".to_string(), 60, 10, 5, 0, 6);
    assert!(s.can_change_position(i32::MAX - 5, i32::MAX));
    assert!(!s.can_change_position(i32::MAX - 4, 0));
    assert!(s.can_change_position(i32::MIN, i32::MIN));
    s.change_position(i32::MAX - 5, 0);
    assert_eq!(s.real_position().x, i32::MAX);
    let d = doodad(2);
    assert!(d.can_change_position(i32::MAX - 100, i32::MIN));
    assert!(!d.can_change_position(i32::MAX - 99, 0));
    assert!(d.can_change_all_positions(i32::MAX - 100, 5));
    assert!(!d.can_change_all_positions(5, i32::MAX - 99));
}

fn divide(v: i32, scale: Single) -> i32 {
    (v as f32 / f32::from_bits(scale.to_bits())) as i32
}

#[test]
fn draw_position_divides_the_origin_by_the_scale() {
    let mut d = doodad(3);
    d.set_scale(Single::from_bits(2.0f32.to_bits()));
    assert_eq!(d.draw_position(&divide), Rect { x: 50, y: 50, w: 32, h: 16 });
    d.set_scale(Single::from_bits(3.0f32.to_bits()));
    assert_eq!(d.draw_position(&divide), Rect { x: 33, y: 33, w: 32, h: 16 });
    let mut s = sheet();
    assert_eq!(s.draw_position(&divide), Rect { x: 400, y: 20, w: 100, h: 80 });
    s.set_scale(Single::from_bits(0.5f32.to_bits()));
    assert_eq!(s.draw_position(&divide), Rect { x: 800, y: 40, w: 100, h: 80 });
}

#[test]
fn draw_position_puts_one_in_the_place_of_zero() {
    let seen = std::cell::RefCell::new(Vec::new());
    let record = |v: i32, _scale: Single| {
        seen.borrow_mut().push(v);
        v
    };
    let s = Spritesheet::new("s".to_string(), 60, 10, 0, 7, 6);
    assert_eq!(s.draw_position(&record), Rect { x: 1, y: 7, w: 10, h: 10 });
    let d = Doodad::new("d".to_string(), 8, 8, -4, 0, 1);
    assert_eq!(d.draw_position(&record), Rect { x: -4, y: 1, w: 8, h: 8 });
    assert_eq!(*seen.borrow(), vec![1, 7, -4, 1]);
    d.draw_position(&|_v: i32, scale: Single| {
        assert_eq!(scale, Single::one());
        0
    });
}

#[test]
fn doodad_new_places_every_frame_alike() {
    let d = doodad(3);
    assert_eq!(d.get_frames_amount(), 3);
    assert_eq!(d.name(), "arrow");
    assert_eq!(d.get_source_rect(), Rect { x: 0, y: 0, w: 32, h: 16 });
    for frame in 0..3 {
        assert_eq!(d.position_at(frame), Rect { x: 100, y: 100, w: 32, h: 16 });
        assert_eq!(d.rotation_at(frame), Double::zero());
    }
    assert_eq!(d.get_scale(), Single::one());
    assert_eq!(d.current_frame_index(), 0);
}

#[test]
fn doodad_load_takes_the_frames_as_given() {
    let positions = vec![Rect::new(1, 2, 3, 4), Rect::new(5, 6, 3, 4)];
    let rotations = vec![Double::from_bits(10), Double::from_bits(20)];
    let d = Doodad::load("d".to_string(), 3, 4, positions.clone(), rotations.clone(), Single::from_bits(9));
    assert_eq!(d.get_frames_amount(), 2);
    assert_eq!(d.position_at(1), positions[1]);
    assert_eq!(d.rotation_at(1), rotations[1]);
    assert_eq!(d.get_scale(), Single::from_bits(9));
    assert_eq!(d.real_position(), positions[0]);
}

#[test]
fn doodad_edits_touch_the_current_frame_only() {
    let mut d = doodad(3);
    d.set_frame(1);
    d.change_position(5, -7);
    d.set_rotation(Double::from_bits(45.0f64.to_bits()));
    assert_eq!(d.real_position(), Rect { x: 105, y: 93, w: 32, h: 16 });
    assert_eq!(d.get_rotation(), Double::from_bits(45.0f64.to_bits()));
    assert_eq!(d.position_at(0), Rect { x: 100, y: 100, w: 32, h: 16 });
    assert_eq!(d.position_at(2), Rect { x: 100, y: 100, w: 32, h: 16 });
    assert_eq!(d.rotation_at(0), Double::zero());
    assert_eq!(d.rotation_at(2), Double::zero());
    d.set_scale(Single::from_bits(3.0f32.to_bits()));
    d.set_frame(2);
    assert_eq!(d.get_scale(), Single::from_bits(3.0f32.to_bits()));
    assert_eq!(d.get_rotation(), Double::zero());
}

#[test]
fn doodad_change_position_goes_below_zero() {
    let mut d = Doodad::new("d".to_string(), 8, 8, 0, 0, 1);
    d.change_position(-5, -6);
    assert_eq!(d.real_position(), Rect { x: -5, y: -6, w: 8, h: 8 });
}

#[test]
fn change_all_positions_moves_every_frame_with_the_guard() {
    let mut d = doodad(3);
    d.set_frame(1);
    d.change_position(-100, -130);
    // frame 1 is at (0, -30) now, the others at (100, 100)
    d.change_all_positions(-10, -10);
    assert_eq!(d.position_at(0), Rect { x: 90, y: 90, w: 32, h: 16 });
    assert_eq!(d.position_at(1), Rect { x: 0, y: -30, w: 32, h: 16 });
    assert_eq!(d.position_at(2), Rect { x: 90, y: 90, w: 32, h: 16 });
    d.change_all_positions(3, 4);
    assert_eq!(d.position_at(0), Rect { x: 93, y: 94, w: 32, h: 16 });
    assert_eq!(d.position_at(1), Rect { x: 3, y: -26, w: 32, h: 16 });
    // A move that would take a frame below 0 is left out in that frame.
    d.change_all_positions(-50, -94);
    assert_eq!(d.position_at(0), Rect { x: 43, y: 0, w: 32, h: 16 });
    assert_eq!(d.position_at(1), Rect { x: 3, y: -26, w: 32, h: 16 });
    assert_eq!(d.position_at(2), Rect { x: 43, y: 0, w: 32, h: 16 });
    d.change_all_positions(-44, -1);
    assert_eq!(d.position_at(0), Rect { x: 43, y: 0, w: 32, h: 16 });
    assert_eq!(d.current_frame_index(), 1);
}

#[test]
fn set_frames_amount_grows_with_copies_of_frame_zero() {
    let mut d = doodad(3);
    for frame in 0..3 {
        d.set_frame(frame);
        d.change_position(frame as i32 + 1, 10 * (frame as i32 + 1));
        d.set_rotation(Double::from_bits(100 + frame as u64));
    }
    d.set_frames_amount(5);
    assert_eq!(d.get_frames_amount(), 5);
    assert_eq!(d.position_at(0), Rect { x: 101, y: 110, w: 32, h: 16 });
    assert_eq!(d.position_at(1), Rect { x: 102, y: 120, w: 32, h: 16 });
    assert_eq!(d.position_at(2), Rect { x: 103, y: 130, w: 32, h: 16 });
    assert_eq!(d.position_at(3), d.position_at(0));
    assert_eq!(d.position_at(4), d.position_at(0));
    assert_eq!(d.rotation_at(1), Double::from_bits(101));
    assert_eq!(d.rotation_at(3), Double::from_bits(100));
    assert_eq!(d.rotation_at(4), Double::from_bits(100));
    assert_eq!(d.current_frame_index(), 2);
}

#[test]
fn set_frames_amount_shrinks_from_the_tail() {
    let mut d = doodad(5);
    for frame in 0..5 {
        d.set_frame(frame);
        d.change_position(frame as i32, 0);
        d.set_rotation(Double::from_bits(frame as u64));
    }
    d.set_frames_amount(3);
    assert_eq!(d.get_frames_amount(), 3);
    for frame in 0..3 {
        assert_eq!(d.position_at(frame), Rect { x: 100 + frame as i32, y: 100, w: 32, h: 16 });
        assert_eq!(d.rotation_at(frame), Double::from_bits(frame as u64));
    }
    // Frame 4 was the current one and is gone.
    assert_eq!(d.current_frame_index(), 0);
    d.set_frames_amount(3);
    assert_eq!(d.get_frames_amount(), 3);
}

#[test]
fn spritesheet_serialize_is_the_start_of_the_header() {
    assert_eq!(sheet().serialize(), "animbg;6;");
}

#[test]
fn doodad_serialize_writes_offsets_from_the_origin() {
    let mut d = doodad(2);
    d.set_frame(1);
    d.change_position(-150, 7);
    let line = d.serialize(Point::new(40, 20), "1.5", &texts(&["0", "45.5"]));
    assert_eq!(line, "arrow;1.5;60,80,0/-90,87,45.5/");
}

#[test]
fn doodad_serialize2_and_serialize3_lay_the_frames_out_otherwise() {
    let mut d = doodad(2);
    d.set_frame(1);
    d.change_position(-150, 7);
    let rotations = texts(&["0", "45.5"]);
    assert_eq!(d.serialize2(Point::new(40, 20), &rotations), "arrow;[60,80,0].[-90,87,45.5].");
    assert_eq!(d.serialize3(Point::new(40, 20), &rotations), "arrow;60.-90.;80.87.;0.45.5.");
}
