//! The settings of the editor: lines of the form `key;value`.

use crate::decimal::{parse_u8, spec_parse_u8};
use crate::file_utils::{split_line, split_seq};
use vstd::prelude::*;

verus! {

/// A colour by its red, green and blue part.
#[derive(Clone, Copy, Debug, PartialEq, Eq, Structural)]
pub struct Color {
    pub r: u8,
    pub g: u8,
    pub b: u8,
}

/// The key and the value that a line holds: its first two fields. A line
/// without a `;` holds none.
pub open spec fn entry_of(line: Seq<char>) -> Option<(Seq<char>, Seq<char>)> {
    let fields = split_seq(line, seq![';']);
    if fields.len() >= 2 {
        Some((fields[0], fields[1]))
    } else {
        None
    }
}

/// The value of the first line that holds `key`, or the empty text if no line
/// holds it. Lines that hold no key and value are passed over.
pub open spec fn value_of(lines: Seq<Seq<char>>, key: Seq<char>) -> Seq<char>
    decreases lines.len(),
{
    if lines.len() == 0 {
        Seq::empty()
    } else {
        match entry_of(lines[0]) {
            Some((k, v)) => if k == key {
                v
            } else {
                value_of(lines.skip(1), key)
            },
            None => value_of(lines.skip(1), key),
        }
    }
}

/// The colour that a value `red,green,blue` stands for: its first three
/// fields, each a number from 0 to 255.
pub open spec fn color_of(value: Seq<char>) -> Option<Color> {
    let fields = split_seq(value, seq![',']);
    if fields.len() < 3 {
        None
    } else {
        match (spec_parse_u8(fields[0]), spec_parse_u8(fields[1]), spec_parse_u8(fields[2])) {
            (Some(r), Some(g), Some(b)) => Some(Color { r, g, b }),
            _ => None,
        }
    }
}

/// The settings, as the lines that were read.
pub struct Config {
    lines: Vec<String>,
}

impl View for Config {
    type V = Seq<Seq<char>>;

    closed spec fn view(&self) -> Seq<Seq<char>> {
        self.lines.deep_view()
    }
}

impl Config {
    /// The settings that the given lines hold.
    pub fn create(lines: Vec<String>) -> (config: Config)
        ensures
            config@ == lines.deep_view(),
    {
        Config { lines }
    }

    /// The value of `key`: that of the first line that holds the key, or the
    /// empty text if none does.
    pub fn read(&self, key: &str) -> (value: String)
        ensures
            value@ == value_of(self@, key@),
    {
        let wanted = key.to_owned();
        let ghost all = self@;
        let mut i: usize = 0;
        assert(all.skip(0) =~= all);
        while i < self.lines.len()
            invariant
                i <= self.lines.len(),
                all == self@,
                wanted@ == key@,
                value_of(all, key@) == value_of(all.skip(i as int), key@),
            decreases self.lines.len() - i,
        {
            let fields = split_line(&self.lines[i], ";");
            proof {
                reveal_strlit(";");
                assert(";"@ =~= seq![';']);
                assert(all.skip(i as int)[0] == self.lines[i as int]@);
                assert(all.skip(i as int).skip(1) =~= all.skip(i + 1));
            }
            if fields.len() >= 2 {
                assert(fields.deep_view()[0] == fields[0]@);
                assert(fields.deep_view()[1] == fields[1]@);
                if fields[0] == wanted {
                    return fields[1].clone();
                }
            }
            i += 1;
        }
        String::new()
    }

    /// The colour that `key` stands for, if its value is one: see `color_of`.
    /// A key without a value stands for no colour.
    pub fn read_color(&self, key: &str) -> (color: Option<Color>)
        ensures
            color == color_of(value_of(self@, key@)),
    {
        let value = self.read(key);
        Config::split_color(&value)
    }

    /// The colour that `data` stands for: see `color_of`.
    pub fn split_color(data: &String) -> (color: Option<Color>)
        ensures
            color == color_of(data@),
    {
        let fields = split_line(data, ",");
        proof {
            reveal_strlit(",");
            assert(","@ =~= seq![',']);
        }
        if fields.len() < 3 {
            return None;
        }
        assert(fields.deep_view()[0] == fields[0]@);
        assert(fields.deep_view()[1] == fields[1]@);
        assert(fields.deep_view()[2] == fields[2]@);
        let r = parse_u8(fields[0].as_str());
        let g = parse_u8(fields[1].as_str());
        let b = parse_u8(fields[2].as_str());
        match (r, g, b) {
            (Some(r), Some(g), Some(b)) => Some(Color { r, g, b }),
            _ => None,
        }
    }
}

} // verus!
