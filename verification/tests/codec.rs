use doodad_editor::codec::{
    decode, decode_lines, encode, parse_doodad, parse_frame, parse_header, DoodadRecord,
    FormatError, FrameRecord, Header, SceneRecord,
};

fn frame(dx: i32, dy: i32, rotation: &str) -> FrameRecord {
    FrameRecord { dx, dy, rotation: rotation.to_string() }
}

fn record(frame_count: usize, doodads: usize) -> SceneRecord {
    let mut list = Vec::new();
    for d in 0..doodads {
        let mut frames = Vec::new();
        for f in 0..frame_count {
            frames.push(frame(d as i32 * 10 - f as i32, -(f as i32) * 7, &format!("{}.25", f * 15)));
        }
        list.push(DoodadRecord { name: format!("doodad{}", d), scale: "1.5".to_string(), frames });
    }
    SceneRecord {
        header: Header { name: "animbg".to_string(), frame_count, framerate: 1000 },
        doodads: list,
    }
}

#[test]
fn encode_writes_the_lines() {
    let scene = SceneRecord {
        header: Header { name: "animbg".to_string(), frame_count: 2, framerate: 250 },
        doodads: vec![
            DoodadRecord {
                name: "arrow".to_string(),
                scale: "1".to_string(),
                frames: vec![frame(10, -20, "0"), frame(11, -21, "90.5")],
            },
            DoodadRecord {
                name: "foo".to_string(),
                scale: "2.5".to_string(),
                frames: vec![frame(0, 0, "-1"), frame(-5, 5, "360")],
            },
        ],
    };
    assert_eq!(encode(&scene), "animbg;2;250\narrow;1;10,-20,0/11,-21,90.5/\nfoo;2.5;0,0,-1/-5,5,360/");
}

#[test]
fn encode_without_doodads_is_the_header() {
    assert_eq!(encode(&record(6, 0)), "animbg;6;1000");
}

#[test]
fn decode_reads_the_lines() {
    let scene = decode("animbg;2;250\narrow;1;10,-20,0/11,-21,90.5/\nfoo;2.5;0,0,-1/-5,5,360/").unwrap();
    assert_eq!(scene.header, Header { name: "animbg".to_string(), frame_count: 2, framerate: 250 });
    assert_eq!(scene.doodads.len(), 2);
    assert_eq!(scene.doodads[0].name, "arrow");
    assert_eq!(scene.doodads[0].scale, "1");
    assert_eq!(scene.doodads[0].frames, vec![frame(10, -20, "0"), frame(11, -21, "90.5")]);
    assert_eq!(scene.doodads[1].frames, vec![frame(0, 0, "-1"), frame(-5, 5, "360")]);
}

#[test]
fn round_trip_with_one_frame() {
    for doodads in 1..4 {
        let scene = record(1, doodads);
        assert_eq!(decode(&encode(&scene)), Ok(scene));
    }
}

#[test]
fn round_trip_with_six_frames() {
    for doodads in 1..4 {
        let scene = record(6, doodads);
        let text = encode(&scene);
        let back = decode(&text).unwrap();
        assert_eq!(back.doodads.len(), doodads);
        assert_eq!(back, scene);
        assert_eq!(encode(&back), text);
    }
}

#[test]
fn round_trip_with_the_largest_numbers() {
    let scene = SceneRecord {
        header: Header { name: "".to_string(), frame_count: 1, framerate: i32::MIN },
        doodads: vec![DoodadRecord {
            name: "a b\r".to_string(),
            scale: "1,5/2".to_string(),
            frames: vec![frame(i32::MAX, i32::MIN, "")],
        }],
    };
    assert_eq!(decode(&encode(&scene)), Ok(scene));
}

#[test]
fn decode_passes_over_empty_segments_and_the_last_line_break() {
    let scene = decode("bg;2;10\r\nd;1;/1,2,3//4,5,6\n").unwrap();
    assert_eq!(scene.doodads[0].frames, vec![frame(1, 2, "3"), frame(4, 5, "6")]);
    assert_eq!(scene.header.framerate, 10);
}

#[test]
fn decode_takes_the_scale_and_the_rotation_as_they_stand() {
    let scene = decode("bg;1;10\nd;not a number;1,2,nor this/").unwrap();
    assert_eq!(scene.doodads[0].scale, "not a number");
    assert_eq!(scene.doodads[0].frames[0].rotation, "nor this");
}

#[test]
fn decode_missing_header() {
    assert_eq!(decode(""), Err(FormatError::MissingHeader));
    assert_eq!(decode_lines(&Vec::new()), Err(FormatError::MissingHeader));
}

#[test]
fn decode_field_count() {
    assert_eq!(decode("bg;6"), Err(FormatError::FieldCount));
    assert_eq!(decode("bg;6;10;x"), Err(FormatError::FieldCount));
    assert_eq!(decode("\n"), Err(FormatError::FieldCount));
    assert_eq!(decode("bg;1;10\nd;1"), Err(FormatError::FieldCount));
    assert_eq!(decode("bg;1;10\nd;1;1,2,3/;x"), Err(FormatError::FieldCount));
    assert_eq!(decode("bg;1;10\nd;1;1,2/"), Err(FormatError::FieldCount));
    assert_eq!(decode("bg;1;10\nd;1;1,2,3,4/"), Err(FormatError::FieldCount));
    assert_eq!(decode("bg;1;10\n\nd;1;1,2,3/"), Err(FormatError::FieldCount));
}

#[test]
fn decode_not_a_number() {
    assert_eq!(decode("bg;six;10"), Err(FormatError::NotANumber));
    assert_eq!(decode("bg;6;fast"), Err(FormatError::NotANumber));
    assert_eq!(decode("bg;-6;10"), Err(FormatError::NotANumber));
    assert_eq!(decode("bg;6;99999999999"), Err(FormatError::NotANumber));
    assert_eq!(decode("bg;1;10\nd;1;x,2,3/"), Err(FormatError::NotANumber));
    assert_eq!(decode("bg;1;10\nd;1;1,,3/"), Err(FormatError::NotANumber));
    assert_eq!(decode("bg;1;10\nd;1;1.5,2,3/"), Err(FormatError::NotANumber));
    assert_eq!(decode("bg;0;fast"), Err(FormatError::NotANumber));
}

#[test]
fn decode_frame_count() {
    assert_eq!(decode("bg;0;10"), Err(FormatError::FrameCount));
    assert_eq!(decode("bg;2;10\nd;1;1,2,3/"), Err(FormatError::FrameCount));
    assert_eq!(decode("bg;1;10\nd;1;1,2,3/4,5,6/"), Err(FormatError::FrameCount));
    assert_eq!(decode("bg;1;10\nd;1;"), Err(FormatError::FrameCount));
}

#[test]
fn decode_gives_the_first_error_in_order() {
    // The second line has a wrong frame count, the third a wrong field count.
    assert_eq!(decode("bg;1;10\nd;1;1,2,3/4,5,6/\nd;1"), Err(FormatError::FrameCount));
    // In one line, the first segment that is no frame decides.
    assert_eq!(decode("bg;2;10\nd;1;1,2/x,2,3/"), Err(FormatError::FieldCount));
    assert_eq!(decode("bg;2;10\nd;1;x,2,3/1,2/"), Err(FormatError::NotANumber));
}

#[test]
fn parse_the_parts_of_a_file() {
    assert_eq!(parse_frame(&"1,-2,3.5".to_string()), Ok(frame(1, -2, "3.5")));
    assert_eq!(parse_frame(&"1,-2".to_string()), Err(FormatError::FieldCount));
    assert_eq!(
        parse_header(&"bg;6;1000".to_string()),
        Ok(Header { name: "bg".to_string(), frame_count: 6, framerate: 1000 })
    );
    assert_eq!(
        parse_doodad(&"d;2;1,2,3/".to_string()),
        Ok(DoodadRecord { name: "d".to_string(), scale: "2".to_string(), frames: vec![frame(1, 2, "3")] })
    );
    assert_eq!(
        parse_doodad(&"d;2;".to_string()),
        Ok(DoodadRecord { name: "d".to_string(), scale: "2".to_string(), frames: vec![] })
    );
}
