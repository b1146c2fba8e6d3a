//! The text form of a scene.
//!
//! A saved scene is a text of lines. The first line names the background
//! sheet: `name;frames;framerate`. Each further line holds one doodad:
//! `name;scale;dx,dy,rotation/dx,dy,rotation/.../`, one `dx,dy,rotation` group
//! for each frame, where `dx` and `dy` say how far the doodad lies from the
//! background's corner in that frame. The scale and the rotations are written
//! and read as they stand: what number such a text means is for the caller.

use crate::decimal::{
    decimal_int, decimal_nat, is_number_char, lemma_decimal_nat, lemma_parse_decimal, parse_i32,
    parse_usize, push_decimal, push_i32, spec_parse_i32, spec_parse_usize,
};
use crate::file_utils::{
    joined, lemma_joined_push, lemma_split_joined, lemma_split_three, lines_of, spec_lines,
    split_line, split_seq,
};
use vstd::prelude::*;
use vstd::string::StringExecFns;

verus! {

/// Why a text is not a saved scene.
#[derive(Clone, Copy, Debug, PartialEq, Eq, Structural)]
pub enum FormatError {
    /// The text has no first line.
    MissingHeader,
    /// A line or a frame does not have three fields.
    FieldCount,
    /// A frame count, a framerate or an offset is not a number that fits.
    NotANumber,
    /// The first line gives no frames, or a doodad does not have as many
    /// frames as the first line gives.
    FrameCount,
}

/// One frame of a doodad as the file holds it.
pub struct FrameView {
    pub dx: i32,
    pub dy: i32,
    pub rotation: Seq<char>,
}

/// One doodad as the file holds it.
pub struct DoodadRecordView {
    pub name: Seq<char>,
    pub scale: Seq<char>,
    pub frames: Seq<FrameView>,
}

/// The first line of the file.
pub struct HeaderView {
    pub name: Seq<char>,
    pub frame_count: usize,
    pub framerate: i32,
}

/// A whole file.
pub struct SceneRecordView {
    pub header: HeaderView,
    pub doodads: Seq<DoodadRecordView>,
}

/// One frame of a doodad, read from a file or to be written to one.
#[derive(Clone, Debug, PartialEq, Eq)]
pub struct FrameRecord {
    /// How far the doodad lies to the right of the background's corner.
    pub dx: i32,
    /// How far the doodad lies below the background's corner.
    pub dy: i32,
    /// The rotation, as the file spells it.
    pub rotation: String,
}

/// One doodad, read from a file or to be written to one.
#[derive(Clone, Debug, PartialEq, Eq)]
pub struct DoodadRecord {
    pub name: String,
    /// The scale, as the file spells it.
    pub scale: String,
    pub frames: Vec<FrameRecord>,
}

/// The first line of a file.
#[derive(Clone, Debug, PartialEq, Eq)]
pub struct Header {
    pub name: String,
    pub frame_count: usize,
    pub framerate: i32,
}

/// A whole file.
#[derive(Clone, Debug, PartialEq, Eq)]
pub struct SceneRecord {
    pub header: Header,
    pub doodads: Vec<DoodadRecord>,
}

impl DeepView for FrameRecord {
    type V = FrameView;

    open spec fn deep_view(&self) -> FrameView {
        FrameView { dx: self.dx, dy: self.dy, rotation: self.rotation@ }
    }
}

impl View for FrameRecord {
    type V = FrameView;

    open spec fn view(&self) -> FrameView {
        self.deep_view()
    }
}

impl DeepView for DoodadRecord {
    type V = DoodadRecordView;

    open spec fn deep_view(&self) -> DoodadRecordView {
        DoodadRecordView {
            name: self.name@,
            scale: self.scale@,
            frames: self.frames.deep_view(),
        }
    }
}

impl View for DoodadRecord {
    type V = DoodadRecordView;

    open spec fn view(&self) -> DoodadRecordView {
        self.deep_view()
    }
}

impl View for Header {
    type V = HeaderView;

    open spec fn view(&self) -> HeaderView {
        HeaderView { name: self.name@, frame_count: self.frame_count, framerate: self.framerate }
    }
}

impl View for SceneRecord {
    type V = SceneRecordView;

    open spec fn view(&self) -> SceneRecordView {
        SceneRecordView { header: self.header@, doodads: self.doodads.deep_view() }
    }
}

/// The text of one frame: `dx,dy,rotation/`.
pub open spec fn frame_text(frame: FrameView) -> Seq<char> {
    decimal_int(frame.dx as int) + seq![','] + decimal_int(frame.dy as int) + seq![',']
        + frame.rotation + seq!['/']
}

/// The texts of the frames, one after the other.
pub open spec fn frames_text(frames: Seq<FrameView>) -> Seq<char>
    decreases frames.len(),
{
    if frames.len() == 0 {
        Seq::empty()
    } else {
        frames_text(frames.drop_last()) + frame_text(frames.last())
    }
}

/// The line of one doodad: `name;scale;` and then its frames.
pub open spec fn doodad_line(doodad: DoodadRecordView) -> Seq<char> {
    doodad.name + seq![';'] + doodad.scale + seq![';'] + frames_text(doodad.frames)
}

/// The start of the first line: `name;frames;`.
pub open spec fn header_prefix(name: Seq<char>, frame_count: usize) -> Seq<char> {
    name + seq![';'] + decimal_nat(frame_count as nat) + seq![';']
}

/// The first line: `name;frames;framerate`.
pub open spec fn header_line(header: HeaderView) -> Seq<char> {
    header_prefix(header.name, header.frame_count) + decimal_int(header.framerate as int)
}

/// The lines of the doodads, each after a line break.
pub open spec fn doodad_lines(doodads: Seq<DoodadRecordView>) -> Seq<char>
    decreases doodads.len(),
{
    if doodads.len() == 0 {
        Seq::empty()
    } else {
        doodad_lines(doodads.drop_last()) + seq!['\n'] + doodad_line(doodads.last())
    }
}

/// The text of a whole file: the first line, then a line for each doodad. The
/// text does not end in a line break.
pub open spec fn scene_text(scene: SceneRecordView) -> Seq<char> {
    header_line(scene.header) + doodad_lines(scene.doodads)
}

/// The text of one frame in the bracket layout: `[dx,dy,rotation].`.
pub open spec fn bracket_text(frame: FrameView) -> Seq<char> {
    seq!['['] + decimal_int(frame.dx as int) + seq![','] + decimal_int(frame.dy as int) + seq![
        ',',
    ] + frame.rotation + seq![']', '.']
}

/// The frames in the bracket layout, one after the other.
pub open spec fn brackets_text(frames: Seq<FrameView>) -> Seq<char>
    decreases frames.len(),
{
    if frames.len() == 0 {
        Seq::empty()
    } else {
        brackets_text(frames.drop_last()) + bracket_text(frames.last())
    }
}

/// The texts one after the other, each followed by a dot.
pub open spec fn dotted(items: Seq<Seq<char>>) -> Seq<char>
    decreases items.len(),
{
    if items.len() == 0 {
        Seq::empty()
    } else {
        dotted(items.drop_last()) + items.last() + seq!['.']
    }
}

/// The line of a doodad in the bracket layout: `name;` and then a group
/// `[dx,dy,rotation].` for each frame.
pub open spec fn bracket_line(doodad: DoodadRecordView) -> Seq<char> {
    doodad.name + seq![';'] + brackets_text(doodad.frames)
}

/// The line of a doodad in the column layout:
/// `name;dx.dx.;dy.dy.;rotation.rotation.`, each of the three columns with an
/// entry for each frame.
pub open spec fn column_line(doodad: DoodadRecordView) -> Seq<char> {
    doodad.name + seq![';'] + dotted(
        Seq::new(doodad.frames.len(), |i: int| decimal_int(doodad.frames[i].dx as int)),
    ) + seq![';'] + dotted(
        Seq::new(doodad.frames.len(), |i: int| decimal_int(doodad.frames[i].dy as int)),
    ) + seq![';'] + dotted(Seq::new(doodad.frames.len(), |i: int| doodad.frames[i].rotation))
}

/// Appends one frame, `dx,dy,rotation/`, to `out`.
pub fn push_frame(out: &mut String, dx: i32, dy: i32, rotation: &str)
    ensures
        final(out)@ == old(out)@ + frame_text(FrameView { dx, dy, rotation: rotation@ }),
{
    proof {
        reveal_strlit(",");
        reveal_strlit("/");
    }
    push_i32(out, dx);
    out.append(",");
    push_i32(out, dy);
    out.append(",");
    out.append(rotation);
    out.append("/");
    assert(out@ =~= old(out)@ + frame_text(FrameView { dx, dy, rotation: rotation@ }));
}

/// Appends the start of the first line, `name;frames;`, to `out`.
pub fn push_header_prefix(out: &mut String, name: &str, frame_count: usize)
    ensures
        final(out)@ == old(out)@ + header_prefix(name@, frame_count),
{
    proof {
        reveal_strlit(";");
    }
    out.append(name);
    out.append(";");
    push_decimal(out, frame_count as u64);
    out.append(";");
    assert(out@ =~= old(out)@ + header_prefix(name@, frame_count));
}

/// The frame that the segment `dx,dy,rotation` stands for.
pub open spec fn frame_of(segment: Seq<char>) -> Result<FrameView, FormatError> {
    let fields = split_seq(segment, seq![',']);
    if fields.len() != 3 {
        Err(FormatError::FieldCount)
    } else {
        match (spec_parse_i32(fields[0]), spec_parse_i32(fields[1])) {
            (Some(dx), Some(dy)) => Ok(FrameView { dx, dy, rotation: fields[2] }),
            _ => Err(FormatError::NotANumber),
        }
    }
}

/// The frames that the segments stand for, in their order. Empty segments are
/// passed over. The first segment that is no frame decides the error.
pub open spec fn frames_of(segments: Seq<Seq<char>>) -> Result<Seq<FrameView>, FormatError>
    decreases segments.len(),
{
    if segments.len() == 0 {
        Ok(Seq::empty())
    } else {
        match frames_of(segments.drop_last()) {
            Err(e) => Err(e),
            Ok(frames) => if segments.last().len() == 0 {
                Ok(frames)
            } else {
                match frame_of(segments.last()) {
                    Err(e) => Err(e),
                    Ok(frame) => Ok(frames.push(frame)),
                }
            },
        }
    }
}

/// The doodad that the line `name;scale;frames` stands for.
pub open spec fn doodad_of(line: Seq<char>) -> Result<DoodadRecordView, FormatError> {
    let fields = split_seq(line, seq![';']);
    if fields.len() != 3 {
        Err(FormatError::FieldCount)
    } else {
        match frames_of(split_seq(fields[2], seq!['/'])) {
            Err(e) => Err(e),
            Ok(frames) => Ok(DoodadRecordView { name: fields[0], scale: fields[1], frames }),
        }
    }
}

/// The first line `name;frames;framerate` as a header.
pub open spec fn header_of(line: Seq<char>) -> Result<HeaderView, FormatError> {
    let fields = split_seq(line, seq![';']);
    if fields.len() != 3 {
        Err(FormatError::FieldCount)
    } else {
        match (spec_parse_usize(fields[1]), spec_parse_i32(fields[2])) {
            (Some(frame_count), Some(framerate)) => if frame_count == 0 {
                Err(FormatError::FrameCount)
            } else {
                Ok(HeaderView { name: fields[0], frame_count, framerate })
            },
            _ => Err(FormatError::NotANumber),
        }
    }
}

/// The doodads that the lines stand for, each with `frame_count` frames. The
/// first line that is no such doodad decides the error.
pub open spec fn doodads_of(lines: Seq<Seq<char>>, frame_count: usize) -> Result<
    Seq<DoodadRecordView>,
    FormatError,
>
    decreases lines.len(),
{
    if lines.len() == 0 {
        Ok(Seq::empty())
    } else {
        match doodads_of(lines.drop_last(), frame_count) {
            Err(e) => Err(e),
            Ok(doodads) => match doodad_of(lines.last()) {
                Err(e) => Err(e),
                Ok(doodad) => if doodad.frames.len() != frame_count {
                    Err(FormatError::FrameCount)
                } else {
                    Ok(doodads.push(doodad))
                },
            },
        }
    }
}

/// The scene that the lines of a file stand for.
pub open spec fn scene_of_lines(lines: Seq<Seq<char>>) -> Result<SceneRecordView, FormatError> {
    if lines.len() == 0 {
        Err(FormatError::MissingHeader)
    } else {
        match header_of(lines[0]) {
            Err(e) => Err(e),
            Ok(header) => match doodads_of(lines.skip(1), header.frame_count) {
                Err(e) => Err(e),
                Ok(doodads) => Ok(SceneRecordView { header, doodads }),
            },
        }
    }
}

/// An error among the first segments is the error of all of them.
proof fn lemma_frames_error_stays(segments: Seq<Seq<char>>, k: int)
    requires
        0 <= k <= segments.len(),
        frames_of(segments.take(k)) is Err,
    ensures
        frames_of(segments) == frames_of(segments.take(k)),
    decreases segments.len() - k,
{
    if k == segments.len() {
        assert(segments.take(k) =~= segments);
    } else {
        assert(segments.take(k + 1).drop_last() =~= segments.take(k));
        lemma_frames_error_stays(segments, k + 1);
    }
}

/// An error among the first lines is the error of all of them.
proof fn lemma_doodads_error_stays(lines: Seq<Seq<char>>, frame_count: usize, k: int)
    requires
        0 <= k <= lines.len(),
        doodads_of(lines.take(k), frame_count) is Err,
    ensures
        doodads_of(lines, frame_count) == doodads_of(lines.take(k), frame_count),
    decreases lines.len() - k,
{
    if k == lines.len() {
        assert(lines.take(k) =~= lines);
    } else {
        assert(lines.take(k + 1).drop_last() =~= lines.take(k));
        lemma_doodads_error_stays(lines, frame_count, k + 1);
    }
}

/// Reads one frame, `dx,dy,rotation`.
pub fn parse_frame(segment: &String) -> (r: Result<FrameRecord, FormatError>)
    ensures
        match r {
            Ok(frame) => frame_of(segment@) == Ok::<FrameView, FormatError>(frame@),
            Err(e) => frame_of(segment@) == Err::<FrameView, FormatError>(e),
        },
{
    let fields = split_line(segment, ",");
    proof {
        reveal_strlit(",");
        assert(","@ =~= seq![',']);
    }
    if fields.len() != 3 {
        return Err(FormatError::FieldCount);
    }
    assert(fields.deep_view()[0] == fields[0]@);
    assert(fields.deep_view()[1] == fields[1]@);
    assert(fields.deep_view()[2] == fields[2]@);
    let dx = parse_i32(fields[0].as_str());
    let dy = parse_i32(fields[1].as_str());
    match (dx, dy) {
        (Some(dx), Some(dy)) => Ok(FrameRecord { dx, dy, rotation: fields[2].clone() }),
        _ => Err(FormatError::NotANumber),
    }
}

/// Reads the frames of a doodad from the segments of its third field.
fn parse_frames(segments: &Vec<String>) -> (r: Result<Vec<FrameRecord>, FormatError>)
    ensures
        match r {
            Ok(frames) => frames_of(segments.deep_view()) == Ok::<Seq<FrameView>, FormatError>(
                frames.deep_view(),
            ),
            Err(e) => frames_of(segments.deep_view()) == Err::<Seq<FrameView>, FormatError>(e),
        },
{
    let mut frames: Vec<FrameRecord> = Vec::new();
    let mut i: usize = 0;
    let ghost all = segments.deep_view();
    assert(all.take(0) =~= Seq::<Seq<char>>::empty());
    assert(frames.deep_view() =~= Seq::<FrameView>::empty());
    while i < segments.len()
        invariant
            i <= segments.len(),
            all == segments.deep_view(),
            frames_of(all.take(i as int)) == Ok::<Seq<FrameView>, FormatError>(frames.deep_view()),
        decreases segments.len() - i,
    {
        proof {
            assert(all.take(i + 1).drop_last() =~= all.take(i as int));
            assert(all.take(i + 1).last() == segments[i as int]@);
        }
        if !segments[i].as_str().is_empty() {
            match parse_frame(&segments[i]) {
                Err(e) => {
                    proof {
                        lemma_frames_error_stays(all, i + 1);
                    }
                    return Err(e);
                },
                Ok(frame) => {
                    let ghost before = frames.deep_view();
                    frames.push(frame);
                    assert(frames.deep_view() =~= before.push(frame@));
                },
            }
        }
        i += 1;
    }
    assert(all.take(i as int) =~= all);
    Ok(frames)
}

/// Reads the line of one doodad, `name;scale;frames`.
pub fn parse_doodad(line: &String) -> (r: Result<DoodadRecord, FormatError>)
    ensures
        match r {
            Ok(doodad) => doodad_of(line@) == Ok::<DoodadRecordView, FormatError>(doodad@),
            Err(e) => doodad_of(line@) == Err::<DoodadRecordView, FormatError>(e),
        },
{
    let fields = split_line(line, ";");
    proof {
        reveal_strlit(";");
        reveal_strlit("/");
        assert(";"@ =~= seq![';']);
        assert("/"@ =~= seq!['/']);
    }
    if fields.len() != 3 {
        return Err(FormatError::FieldCount);
    }
    assert(fields.deep_view()[0] == fields[0]@);
    assert(fields.deep_view()[1] == fields[1]@);
    assert(fields.deep_view()[2] == fields[2]@);
    let segments = split_line(&fields[2], "/");
    match parse_frames(&segments) {
        Err(e) => Err(e),
        Ok(frames) => Ok(DoodadRecord { name: fields[0].clone(), scale: fields[1].clone(), frames }),
    }
}

/// Reads the first line, `name;frames;framerate`.
pub fn parse_header(line: &String) -> (r: Result<Header, FormatError>)
    ensures
        match r {
            Ok(header) => header_of(line@) == Ok::<HeaderView, FormatError>(header@),
            Err(e) => header_of(line@) == Err::<HeaderView, FormatError>(e),
        },
{
    let fields = split_line(line, ";");
    proof {
        reveal_strlit(";");
        assert(";"@ =~= seq![';']);
    }
    if fields.len() != 3 {
        return Err(FormatError::FieldCount);
    }
    assert(fields.deep_view()[0] == fields[0]@);
    assert(fields.deep_view()[1] == fields[1]@);
    assert(fields.deep_view()[2] == fields[2]@);
    let frame_count = parse_usize(fields[1].as_str());
    let framerate = parse_i32(fields[2].as_str());
    match (frame_count, framerate) {
        (Some(frame_count), Some(framerate)) => {
            if frame_count == 0 {
                Err(FormatError::FrameCount)
            } else {
                Ok(Header { name: fields[0].clone(), frame_count, framerate })
            }
        },
        _ => Err(FormatError::NotANumber),
    }
}

/// Reads a scene from the lines of a file. The first line is the header, each
/// further line a doodad with as many frames as the header gives.
pub fn decode_lines(lines: &Vec<String>) -> (r: Result<SceneRecord, FormatError>)
    ensures
        match r {
            Ok(scene) => scene_of_lines(lines.deep_view()) == Ok::<SceneRecordView, FormatError>(
                scene@,
            ),
            Err(e) => scene_of_lines(lines.deep_view()) == Err::<SceneRecordView, FormatError>(e),
        },
{
    if lines.len() == 0 {
        return Err(FormatError::MissingHeader);
    }
    assert(lines.deep_view()[0] == lines[0]@);
    let header = match parse_header(&lines[0]) {
        Err(e) => {
            return Err(e);
        },
        Ok(header) => header,
    };
    let ghost rest = lines.deep_view().skip(1);
    let mut doodads: Vec<DoodadRecord> = Vec::new();
    let mut i: usize = 1;
    assert(rest.take(0) =~= Seq::<Seq<char>>::empty());
    assert(doodads.deep_view() =~= Seq::<DoodadRecordView>::empty());
    while i < lines.len()
        invariant
            1 <= i <= lines.len(),
            rest == lines.deep_view().skip(1),
            header_of(lines.deep_view()[0]) == Ok::<HeaderView, FormatError>(header@),
            doodads_of(rest.take(i - 1), header.frame_count) == Ok::<
                Seq<DoodadRecordView>,
                FormatError,
            >(doodads.deep_view()),
        decreases lines.len() - i,
    {
        proof {
            assert(rest.take(i as int).drop_last() =~= rest.take(i - 1));
            assert(rest.take(i as int).last() == lines[i as int]@);
        }
        match parse_doodad(&lines[i]) {
            Err(e) => {
                proof {
                    lemma_doodads_error_stays(rest, header.frame_count, i as int);
                }
                return Err(e);
            },
            Ok(doodad) => {
                if doodad.frames.len() != header.frame_count {
                    proof {
                        lemma_doodads_error_stays(rest, header.frame_count, i as int);
                    }
                    return Err(FormatError::FrameCount);
                }
                let ghost before = doodads.deep_view();
                doodads.push(doodad);
                assert(doodads.deep_view() =~= before.push(doodad@));
            },
        }
        i += 1;
    }
    assert(rest.take(i - 1) =~= rest);
    Ok(SceneRecord { header, doodads })
}

/// The scene that a text stands for: that of its lines.
pub open spec fn scene_of(text: Seq<char>) -> Result<SceneRecordView, FormatError> {
    scene_of_lines(spec_lines(text))
}

/// Reads a scene from the text of a file.
pub fn decode(text: &str) -> (r: Result<SceneRecord, FormatError>)
    ensures
        match r {
            Ok(scene) => scene_of(text@) == Ok::<SceneRecordView, FormatError>(scene@),
            Err(e) => scene_of(text@) == Err::<SceneRecordView, FormatError>(e),
        },
{
    let lines = lines_of(text);
    decode_lines(&lines)
}

/// Appends the line of one doodad to `out`.
pub fn push_doodad_line(out: &mut String, doodad: &DoodadRecord)
    ensures
        final(out)@ == old(out)@ + doodad_line(doodad@),
{
    proof {
        reveal_strlit(";");
    }
    out.append(doodad.name.as_str());
    out.append(";");
    out.append(doodad.scale.as_str());
    out.append(";");
    let ghost head = out@;
    let ghost frames = doodad.frames.deep_view();
    let mut i: usize = 0;
    assert(frames.take(0) =~= Seq::<FrameView>::empty());
    assert(out@ =~= head + frames_text(frames.take(0)));
    while i < doodad.frames.len()
        invariant
            i <= doodad.frames.len(),
            frames == doodad.frames.deep_view(),
            out@ == head + frames_text(frames.take(i as int)),
        decreases doodad.frames.len() - i,
    {
        let frame = &doodad.frames[i];
        push_frame(out, frame.dx, frame.dy, frame.rotation.as_str());
        proof {
            let longer = frames.take(i + 1);
            assert(longer.drop_last() =~= frames.take(i as int));
            assert(longer.last() == doodad.frames[i as int]@);
            assert(out@ =~= head + frames_text(longer));
        }
        i += 1;
    }
    proof {
        assert(frames.take(i as int) =~= frames);
        assert(out@ =~= old(out)@ + doodad_line(doodad@));
    }
}

/// Writes a scene as the text of a file.
pub fn encode(scene: &SceneRecord) -> (text: String)
    ensures
        text@ == scene_text(scene@),
{
    proof {
        reveal_strlit("\n");
    }
    let mut out = String::new();
    push_header_prefix(&mut out, scene.header.name.as_str(), scene.header.frame_count);
    push_i32(&mut out, scene.header.framerate);
    let ghost head = out@;
    let ghost doodads = scene.doodads.deep_view();
    assert(head =~= header_line(scene.header@));
    assert(doodads.take(0) =~= Seq::<DoodadRecordView>::empty());
    assert(out@ =~= head + doodad_lines(doodads.take(0)));
    let mut i: usize = 0;
    while i < scene.doodads.len()
        invariant
            i <= scene.doodads.len(),
            doodads == scene.doodads.deep_view(),
            out@ == head + doodad_lines(doodads.take(i as int)),
        decreases scene.doodads.len() - i,
    {
        out.append("\n");
        push_doodad_line(&mut out, &scene.doodads[i]);
        proof {
            reveal_strlit("\n");
            let longer = doodads.take(i + 1);
            assert(longer.drop_last() =~= doodads.take(i as int));
            assert(longer.last() == scene.doodads[i as int]@);
            assert(out@ =~= head + doodad_lines(longer));
        }
        i += 1;
    }
    proof {
        assert(doodads.take(i as int) =~= doodads);
    }
    out
}

/// Whether a name or a scale can stand in a field of a line: it holds no
/// `;` and no line feed.
pub open spec fn plain_field(s: Seq<char>) -> bool {
    !s.contains(';') && !s.contains('\n')
}

/// Whether the text of a rotation can stand in a frame: it holds none of
/// `,`, `/`, `;` and no line feed.
pub open spec fn plain_token(s: Seq<char>) -> bool {
    plain_field(s) && !s.contains(',') && !s.contains('/')
}

/// Whether a doodad can be written so that it can be read again.
pub open spec fn writable_doodad(doodad: DoodadRecordView) -> bool {
    &&& plain_field(doodad.name)
    &&& plain_field(doodad.scale)
    &&& forall|i: int|
        0 <= i < doodad.frames.len() ==> plain_token((#[trigger] doodad.frames[i]).rotation)
}

/// Whether a scene can be written so that it can be read again: its texts can
/// stand where they are written, it has a frame, and each doodad has as many
/// frames as the header gives.
pub open spec fn writable(scene: SceneRecordView) -> bool {
    &&& plain_field(scene.header.name)
    &&& scene.header.frame_count > 0
    &&& forall|i: int|
        0 <= i < scene.doodads.len() ==> writable_doodad(#[trigger] scene.doodads[i])
            && scene.doodads[i].frames.len() == scene.header.frame_count
}

proof fn lemma_concat_free(a: Seq<char>, b: Seq<char>, c: char)
    requires
        !a.contains(c),
        !b.contains(c),
    ensures
        !(a + b).contains(c),
{
    if (a + b).contains(c) {
        let i = choose|i: int| 0 <= i < (a + b).len() && (a + b)[i] == c;
        if i < a.len() {
            assert(a[i] == c);
        } else {
            assert(b[i - a.len()] == c);
        }
    }
}

proof fn lemma_decimal_free(v: int, c: char)
    requires
        !is_number_char(c),
    ensures
        !decimal_int(v).contains(c),
        decimal_int(v).len() > 0,
        decimal_int(v).last() != '\r',
{
    lemma_parse_decimal(v);
    let s = decimal_int(v);
    if s.contains(c) {
        let i = choose|i: int| 0 <= i < s.len() && s[i] == c;
        assert(is_number_char(s[i]));
    }
    assert(is_number_char(s[s.len() - 1]));
}

/// The text of one frame without the `/` that ends it.
pub open spec fn segment_text(frame: FrameView) -> Seq<char> {
    decimal_int(frame.dx as int) + seq![','] + decimal_int(frame.dy as int) + seq![',']
        + frame.rotation
}

/// The segments of the frames.
pub open spec fn segments(frames: Seq<FrameView>) -> Seq<Seq<char>> {
    Seq::new(frames.len(), |i: int| segment_text(frames[i]))
}

proof fn lemma_segment_free(frame: FrameView, c: char)
    requires
        !is_number_char(c),
        c != ',',
        !frame.rotation.contains(c),
    ensures
        !segment_text(frame).contains(c),
{
    lemma_decimal_free(frame.dx as int, c);
    lemma_decimal_free(frame.dy as int, c);
    let a = decimal_int(frame.dx as int);
    let b = decimal_int(frame.dy as int);
    let comma = seq![','];
    if comma.contains(c) {
        let i = choose|i: int| 0 <= i < comma.len() && comma[i] == c;
    }
    lemma_concat_free(a, comma, c);
    lemma_concat_free(a + comma, b, c);
    lemma_concat_free(a + comma + b, comma, c);
    lemma_concat_free(a + comma + b + comma, frame.rotation, c);
}

/// A frame that was written is read as it was.
proof fn lemma_frame_of_segment(frame: FrameView)
    requires
        plain_token(frame.rotation),
    ensures
        frame_of(segment_text(frame)) == Ok::<FrameView, FormatError>(frame),
        segment_text(frame).len() > 0,
{
    let a = decimal_int(frame.dx as int);
    let b = decimal_int(frame.dy as int);
    assert(split_seq(segment_text(frame), seq![',']) == seq![a, b, frame.rotation]) by {
        lemma_decimal_free(frame.dx as int, ',');
        lemma_decimal_free(frame.dy as int, ',');
        lemma_split_three(a, b, frame.rotation, ',');
    }
    assert(spec_parse_i32(a) == Some(frame.dx)) by {
        lemma_parse_decimal(frame.dx as int);
    }
    assert(spec_parse_i32(b) == Some(frame.dy)) by {
        lemma_parse_decimal(frame.dy as int);
    }
    assert(segment_text(frame).len() > 0);
}

/// The text of the frames is their segments, each followed by `/`.
proof fn lemma_frames_text_joined(frames: Seq<FrameView>)
    ensures
        frames_text(frames) == joined(segments(frames).push(Seq::empty()), '/'),
    decreases frames.len(),
{
    let all = segments(frames).push(Seq::empty());
    if frames.len() == 0 {
        assert(all =~= seq![Seq::<char>::empty()]);
    } else {
        let head = frames.drop_last();
        lemma_frames_text_joined(head);
        let seg = segment_text(frames.last());
        assert(segments(frames) =~= segments(head).push(seg));
        lemma_joined_push(segments(frames), Seq::empty(), '/');
        if head.len() == 0 {
            assert(segments(frames) =~= seq![seg]);
            assert(frames_text(head) =~= Seq::<char>::empty());
            assert(frames_text(frames) =~= seg + seq!['/']);
            assert(joined(all, '/') =~= seg + seq!['/']);
        } else {
            lemma_joined_push(segments(head), seg, '/');
            lemma_joined_push(segments(head), Seq::empty(), '/');
            assert(frames_text(frames) =~= joined(segments(head), '/') + seq!['/'] + seg + seq![
                '/',
            ]);
            assert(joined(all, '/') =~= joined(segments(head), '/') + seq!['/'] + seg + seq!['/']);
        }
    }
}

/// The segments of frames that were written are read as those frames.
proof fn lemma_frames_of_segments(frames: Seq<FrameView>)
    requires
        forall|i: int| 0 <= i < frames.len() ==> plain_token((#[trigger] frames[i]).rotation),
    ensures
        frames_of(segments(frames)) == Ok::<Seq<FrameView>, FormatError>(frames),
        frames_of(segments(frames).push(Seq::empty())) == Ok::<Seq<FrameView>, FormatError>(frames),
    decreases frames.len(),
{
    let segs = segments(frames);
    if frames.len() == 0 {
        assert(frames =~= Seq::<FrameView>::empty());
    } else {
        let head = frames.drop_last();
        assert forall|i: int| 0 <= i < head.len() implies plain_token(
            (#[trigger] head[i]).rotation,
        ) by {
            assert(head[i] == frames[i]);
        }
        lemma_frames_of_segments(head);
        lemma_frame_of_segment(frames.last());
        assert(segs.drop_last() =~= segments(head));
        assert(segs.last() == segment_text(frames.last()));
        assert(head.push(frames.last()) =~= frames);
    }
    assert(segs.push(Seq::empty()).drop_last() =~= segs);
}

proof fn lemma_frames_text_free(frames: Seq<FrameView>, c: char)
    requires
        !is_number_char(c),
        c != ',',
        c != '/',
        forall|i: int| 0 <= i < frames.len() ==> !(#[trigger] frames[i]).rotation.contains(c),
    ensures
        !frames_text(frames).contains(c),
    decreases frames.len(),
{
    if frames.len() > 0 {
        let head = frames.drop_last();
        assert forall|i: int| 0 <= i < head.len() implies !(#[trigger] head[i]).rotation.contains(
            c,
        ) by {
            assert(head[i] == frames[i]);
        }
        lemma_frames_text_free(head, c);
        lemma_segment_free(frames.last(), c);
        let slash = seq!['/'];
        if slash.contains(c) {
            let i = choose|i: int| 0 <= i < slash.len() && slash[i] == c;
        }
        lemma_concat_free(segment_text(frames.last()), slash, c);
        assert(frame_text(frames.last()) =~= segment_text(frames.last()) + slash);
        lemma_concat_free(frames_text(head), frame_text(frames.last()), c);
    }
}

proof fn lemma_doodad_line_free(doodad: DoodadRecordView, c: char)
    requires
        !is_number_char(c),
        c != ',',
        c != '/',
        c != ';',
        !doodad.name.contains(c),
        !doodad.scale.contains(c),
        forall|i: int|
            0 <= i < doodad.frames.len() ==> !(#[trigger] doodad.frames[i]).rotation.contains(c),
    ensures
        !doodad_line(doodad).contains(c),
{
    let semi = seq![';'];
    if semi.contains(c) {
        let i = choose|i: int| 0 <= i < semi.len() && semi[i] == c;
    }
    lemma_frames_text_free(doodad.frames, c);
    lemma_concat_free(doodad.name, semi, c);
    lemma_concat_free(doodad.name + semi, doodad.scale, c);
    lemma_concat_free(doodad.name + semi + doodad.scale, semi, c);
    lemma_concat_free(doodad.name + semi + doodad.scale + semi, frames_text(doodad.frames), c);
}

/// A doodad that was written is read as it was.
pub proof fn lemma_doodad_of_line(doodad: DoodadRecordView)
    requires
        writable_doodad(doodad),
    ensures
        doodad_of(doodad_line(doodad)) == Ok::<DoodadRecordView, FormatError>(doodad),
{
    let text = frames_text(doodad.frames);
    assert(split_seq(doodad_line(doodad), seq![';']) == seq![doodad.name, doodad.scale, text]) by {
        lemma_frames_text_free(doodad.frames, ';');
        lemma_split_three(doodad.name, doodad.scale, text, ';');
    }
    let segs = segments(doodad.frames).push(Seq::empty());
    assert(split_seq(text, seq!['/']) == segs) by {
        lemma_frames_text_joined(doodad.frames);
        assert forall|i: int| 0 <= i < segs.len() implies !(#[trigger] segs[i]).contains('/') by {
            if i < doodad.frames.len() {
                lemma_segment_free(doodad.frames[i], '/');
            }
        }
        lemma_split_joined(segs, '/');
    }
    lemma_frames_of_segments(doodad.frames);
}

/// A header that was written is read as it was.
pub proof fn lemma_header_of_line(header: HeaderView)
    requires
        plain_field(header.name),
        header.frame_count > 0,
    ensures
        header_of(header_line(header)) == Ok::<HeaderView, FormatError>(header),
{
    let count = decimal_nat(header.frame_count as nat);
    let rate = decimal_int(header.framerate as int);
    assert(count == decimal_int(header.frame_count as int));
    assert(split_seq(header_line(header), seq![';']) == seq![header.name, count, rate]) by {
        lemma_decimal_free(header.frame_count as int, ';');
        lemma_decimal_free(header.framerate as int, ';');
        lemma_split_three(header.name, count, rate, ';');
    }
    assert(spec_parse_usize(count) == Some(header.frame_count)) by {
        lemma_parse_decimal(header.frame_count as int);
        lemma_decimal_nat(header.frame_count as nat);
        assert(crate::decimal::is_digit(count[0]));
    }
    assert(spec_parse_i32(rate) == Some(header.framerate)) by {
        lemma_parse_decimal(header.framerate as int);
    }
}

/// The lines of the doodads.
pub open spec fn lines_of_doodads(doodads: Seq<DoodadRecordView>) -> Seq<Seq<char>> {
    Seq::new(doodads.len(), |i: int| doodad_line(doodads[i]))
}

/// Doodads that were written, each on its line, are read as they were.
proof fn lemma_doodads_of_lines(doodads: Seq<DoodadRecordView>, frame_count: usize)
    requires
        forall|i: int|
            0 <= i < doodads.len() ==> writable_doodad(#[trigger] doodads[i])
                && doodads[i].frames.len() == frame_count,
    ensures
        doodads_of(lines_of_doodads(doodads), frame_count) == Ok::<
            Seq<DoodadRecordView>,
            FormatError,
        >(doodads),
    decreases doodads.len(),
{
    let lines = lines_of_doodads(doodads);
    if doodads.len() == 0 {
        assert(doodads =~= Seq::<DoodadRecordView>::empty());
    } else {
        let head = doodads.drop_last();
        assert forall|i: int| 0 <= i < head.len() implies writable_doodad(#[trigger] head[i])
            && head[i].frames.len() == frame_count by {
            assert(head[i] == doodads[i]);
        }
        lemma_doodads_of_lines(head, frame_count);
        lemma_doodad_of_line(doodads.last());
        assert(lines.drop_last() =~= lines_of_doodads(head));
        assert(lines.last() == doodad_line(doodads.last()));
        assert(head.push(doodads.last()) =~= doodads);
    }
}

/// The text of a scene is its lines with a line feed between each two.
proof fn lemma_scene_text_joined(scene: SceneRecordView)
    ensures
        scene_text(scene) == joined(
            seq![header_line(scene.header)] + lines_of_doodads(scene.doodads),
            '\n',
        ),
    decreases scene.doodads.len(),
{
    let first = seq![header_line(scene.header)];
    let all = first + lines_of_doodads(scene.doodads);
    if scene.doodads.len() == 0 {
        assert(all =~= first);
        assert(scene_text(scene) =~= header_line(scene.header));
    } else {
        let head = SceneRecordView { header: scene.header, doodads: scene.doodads.drop_last() };
        lemma_scene_text_joined(head);
        let line = doodad_line(scene.doodads.last());
        let before = first + lines_of_doodads(head.doodads);
        assert(all =~= before.push(line));
        lemma_joined_push(before, line, '\n');
        assert(scene_text(scene) =~= scene_text(head) + seq!['\n'] + line);
    }
}

/// Reading what was written gives the scene back: the same header, as many
/// doodads, and for each doodad the same name, the same text of its scale
/// and, frame by frame, the same offsets and the same text of its rotation.
pub proof fn lemma_decode_encode(scene: SceneRecordView)
    requires
        writable(scene),
    ensures
        scene_of(scene_text(scene)) == Ok::<SceneRecordView, FormatError>(scene),
{
    let header = header_line(scene.header);
    let lines = lines_of_doodads(scene.doodads);
    let all = seq![header] + lines;
    let text = scene_text(scene);
    lemma_scene_text_joined(scene);
    lemma_decimal_free(scene.header.frame_count as int, '\n');
    lemma_decimal_free(scene.header.framerate as int, '\n');
    lemma_decimal_nat(scene.header.frame_count as nat);
    assert(!header.contains('\n') && header.len() > 0 && header.last() != '\r') by {
        let semi = seq![';'];
        let count = decimal_nat(scene.header.frame_count as nat);
        let rate = decimal_int(scene.header.framerate as int);
        assert(count == decimal_int(scene.header.frame_count as int));
        if semi.contains('\n') {
            let i = choose|i: int| 0 <= i < semi.len() && semi[i] == '\n';
        }
        lemma_concat_free(scene.header.name, semi, '\n');
        lemma_concat_free(scene.header.name + semi, count, '\n');
        lemma_concat_free(scene.header.name + semi + count, semi, '\n');
        lemma_concat_free(scene.header.name + semi + count + semi, rate, '\n');
        assert(header =~= scene.header.name + semi + count + semi + rate);
        assert(header.last() == rate.last());
    }
    assert forall|i: int| 0 <= i < all.len() implies !(#[trigger] all[i]).contains('\n') by {
        if i > 0 {
            assert(all[i] == doodad_line(scene.doodads[i - 1]));
            lemma_doodad_line_free(scene.doodads[i - 1], '\n');
        }
    }
    lemma_split_joined(all, '\n');
    assert forall|i: int| 0 <= i < all.len() implies (#[trigger] all[i]).len() > 0
        && all[i].last() != '\r' by {
        if i > 0 {
            let doodad = scene.doodads[i - 1];
            assert(all[i] == doodad_line(doodad));
            assert(writable_doodad(doodad));
            let frames = doodad.frames;
            assert(frames.len() > 0);
            assert(frames_text(frames) == frames_text(frames.drop_last()) + frame_text(
                frames.last(),
            ));
            assert(doodad_line(doodad).last() == '/');
        }
    }
    assert(spec_lines(text) =~= all);
    lemma_header_of_line(scene.header);
    lemma_doodads_of_lines(scene.doodads, scene.header.frame_count);
    assert(all.skip(1) =~= lines);
}

} // verus!
