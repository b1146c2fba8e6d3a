//! Splitting text into fields and lines, and the names of the files that hold
//! saved scenes.

use vstd::prelude::*;
use vstd::string::StringExecFns;

verus! {

/// Whether `pat` occurs in `s` at position `i`.
pub open spec fn matches_at(s: Seq<char>, pat: Seq<char>, i: int) -> bool {
    0 <= i && i + pat.len() <= s.len() && s.subrange(i, i + pat.len()) == pat
}

/// The first position at or after `i` where `pat` occurs in `s`.
pub open spec fn find_from(s: Seq<char>, pat: Seq<char>, i: int) -> Option<int>
    decreases s.len() - i,
{
    if i < 0 || i + pat.len() > s.len() {
        None
    } else if matches_at(s, pat, i) {
        Some(i)
    } else if i >= s.len() {
        None
    } else {
        find_from(s, pat, i + 1)
    }
}

/// Each character of `s` as a piece of its own.
pub open spec fn singletons(s: Seq<char>) -> Seq<Seq<char>> {
    Seq::new(s.len(), |i: int| seq![s[i]])
}

/// The pieces of `s` between the occurrences of `pat`, found from left to right
/// without overlap. Two occurrences in a row, or one at either end, give an
/// empty piece, so a text without any occurrence is one piece and `n`
/// occurrences give `n + 1` pieces. An empty pattern lies between any two
/// characters and at both ends.
pub open spec fn split_seq(s: Seq<char>, pat: Seq<char>) -> Seq<Seq<char>>
    decreases s.len(),
{
    if pat.len() == 0 {
        seq![Seq::<char>::empty()] + singletons(s) + seq![Seq::<char>::empty()]
    } else {
        match find_from(s, pat, 0) {
            None => seq![s],
            Some(i) => {
                if 0 <= i && i + pat.len() <= s.len() {
                    seq![s.take(i)] + split_seq(s.skip(i + pat.len()), pat)
                } else {
                    seq![s]
                }
            },
        }
    }
}

/// Where `find_from` finds something, `pat` occurs there and nowhere between
/// `i` and there.
pub proof fn lemma_find_from_some(s: Seq<char>, pat: Seq<char>, i: int)
    requires
        find_from(s, pat, i) is Some,
    ensures
        i <= find_from(s, pat, i)->0,
        matches_at(s, pat, find_from(s, pat, i)->0),
        forall|k: int| i <= k < find_from(s, pat, i)->0 ==> !matches_at(s, pat, k),
    decreases s.len() - i,
{
    if i < 0 || i + pat.len() > s.len() {
    } else if matches_at(s, pat, i) {
    } else if i >= s.len() {
    } else {
        lemma_find_from_some(s, pat, i + 1);
    }
}

/// Passing over a position where `pat` does not occur does not change what
/// `find_from` finds.
pub proof fn lemma_find_from_skip(s: Seq<char>, pat: Seq<char>, i: int, j: int)
    requires
        0 <= i <= j,
        forall|k: int| i <= k < j ==> !matches_at(s, pat, k),
    ensures
        find_from(s, pat, i) == find_from(s, pat, j),
    decreases j - i,
{
    if i < j {
        lemma_find_from_skip(s, pat, i + 1, j);
        if i + pat.len() > s.len() {
            lemma_find_from_none_at_end(s, pat, j);
        }
    }
}

/// Past the last position where `pat` would still fit, nothing is found.
pub proof fn lemma_find_from_none_at_end(s: Seq<char>, pat: Seq<char>, j: int)
    requires
        j + pat.len() > s.len(),
    ensures
        find_from(s, pat, j) is None,
{
}

fn matches_here(s: &Vec<char>, pat: &Vec<char>, i: usize) -> (b: bool)
    requires
        i + pat.len() <= s.len(),
    ensures
        b == matches_at(s@, pat@, i as int),
{
    let mut k: usize = 0;
    while k < pat.len()
        invariant
            k <= pat.len(),
            i + pat.len() <= s.len(),
            forall|j: int| 0 <= j < k ==> s@[i + j] == pat@[j],
        decreases pat.len() - k,
    {
        if s[i + k] != pat[k] {
            proof {
                let sub = s@.subrange(i as int, i + pat.len());
                assert(sub[k as int] == s@[i + k]);
            }
            return false;
        }
        k += 1;
    }
    assert(s@.subrange(i as int, i + pat.len()) =~= pat@);
    true
}

/// The characters of `s`, in order.
pub fn chars_of(s: &str) -> (v: Vec<char>)
    ensures
        v@ == s@,
{
    let mut v: Vec<char> = Vec::new();
    for c in it: s.chars()
        invariant
            v@ == it.seq().take(it.index() as int),
            it.seq() == s@,
    {
        v.push(c);
    }
    v
}

/// Splits `data` at every occurrence of `pattern`.
pub fn split_line(data: &String, pattern: &str) -> (pieces: Vec<String>)
    ensures
        pieces.deep_view() == split_seq(data@, pattern@),
{
    let text = data.as_str();
    let s = chars_of(text);
    let pat = chars_of(pattern);
    let mut pieces: Vec<String> = Vec::new();
    if pat.len() == 0 {
        pieces.push(String::new());
        let mut i: usize = 0;
        while i < s.len()
            invariant
                i <= s.len(),
                s@ == text@,
                pieces.deep_view() == seq![Seq::<char>::empty()] + singletons(s@.take(i as int)),
            decreases s.len() - i,
        {
            let piece = text.substring_char(i, i + 1).to_owned();
            let ghost before = pieces.deep_view();
            pieces.push(piece);
            proof {
                assert(piece@ =~= seq![s@[i as int]]);
                assert(pieces.deep_view() =~= before.push(piece@));
                assert(singletons(s@.take(i + 1)) =~= singletons(s@.take(i as int)).push(piece@));
            }
            i += 1;
        }
        let ghost before = pieces.deep_view();
        pieces.push(String::new());
        proof {
            assert(s@.take(s@.len() as int) =~= s@);
            assert(pieces.deep_view() =~= before.push(Seq::<char>::empty()));
            assert(pieces.deep_view() =~= split_seq(data@, pattern@));
        }
        return pieces;
    }
    let mut start: usize = 0;
    let mut i: usize = 0;
    proof {
        assert(s@.skip(0) =~= s@);
        assert(split_seq(s@, pat@) =~= pieces.deep_view() + split_seq(s@.skip(0), pat@));
    }
    while pat.len() <= s.len() && i <= s.len() - pat.len()
        invariant
            start <= i,
            start <= s.len(),
            pat.len() > 0,
            s@ == text@,
            s@ == data@,
            pat@ == pattern@,
            forall|k: int| start <= k < i ==> !matches_at(s@, pat@, k),
            split_seq(s@, pat@) == pieces.deep_view() + split_seq(s@.skip(start as int), pat@),
        decreases s.len() - i,
    {
        if matches_here(&s, &pat, i) {
            let piece = text.substring_char(start, i).to_owned();
            proof {
                lemma_split_at_match(s@, pat@, start as int, i as int);
                assert(pieces.deep_view().push(piece@) =~= pieces.deep_view() + seq![piece@]);
            }
            let ghost before = pieces.deep_view();
            pieces.push(piece);
            proof {
                assert(pieces.deep_view() =~= before.push(piece@));
            }
            i = i + pat.len();
            start = i;
        } else {
            i += 1;
        }
    }
    let piece = text.substring_char(start, s.len()).to_owned();
    proof {
        lemma_split_no_match(s@, pat@, start as int, i as int);
        assert(s@.subrange(start as int, s@.len() as int) =~= s@.skip(start as int));
    }
    let ghost before = pieces.deep_view();
    pieces.push(piece);
    proof {
        assert(pieces.deep_view() =~= before.push(piece@));
        assert(before.push(piece@) =~= before + seq![piece@]);
    }
    pieces
}

/// An occurrence of `pat` in the rest of `s` from `start` is one in `s`.
proof fn lemma_matches_in_suffix(s: Seq<char>, pat: Seq<char>, start: int, k: int)
    requires
        0 <= start <= s.len(),
        0 <= k,
    ensures
        matches_at(s.skip(start), pat, k) == matches_at(s, pat, start + k),
{
    if k + pat.len() <= s.len() - start {
        assert(s.skip(start).subrange(k, k + pat.len()) =~= s.subrange(
            start + k,
            start + k + pat.len(),
        ));
    }
}

/// The first occurrence of `pat` after `start` ends a piece.
proof fn lemma_split_at_match(s: Seq<char>, pat: Seq<char>, start: int, i: int)
    requires
        0 <= start <= i,
        pat.len() > 0,
        matches_at(s, pat, i),
        forall|k: int| start <= k < i ==> !matches_at(s, pat, k),
    ensures
        split_seq(s.skip(start), pat) == seq![s.subrange(start, i)] + split_seq(
            s.skip(i + pat.len()),
            pat,
        ),
{
    let rest = s.skip(start);
    assert forall|k: int| 0 <= k < i - start implies !matches_at(rest, pat, k) by {
        lemma_matches_in_suffix(s, pat, start, k);
    }
    lemma_matches_in_suffix(s, pat, start, i - start);
    lemma_find_from_skip(rest, pat, 0, i - start);
    assert(find_from(rest, pat, 0) == Some(i - start));
    assert(rest.take(i - start) =~= s.subrange(start, i));
    assert(rest.skip(i - start + pat.len()) =~= s.skip(i + pat.len()));
}

/// Without an occurrence of `pat` after `start`, the rest is one piece.
proof fn lemma_split_no_match(s: Seq<char>, pat: Seq<char>, start: int, i: int)
    requires
        0 <= start <= i,
        start <= s.len(),
        pat.len() > 0,
        i + pat.len() > s.len(),
        forall|k: int| start <= k < i ==> !matches_at(s, pat, k),
    ensures
        split_seq(s.skip(start), pat) == seq![s.skip(start)],
{
    let rest = s.skip(start);
    assert forall|k: int| 0 <= k < i - start implies !matches_at(rest, pat, k) by {
        lemma_matches_in_suffix(s, pat, start, k);
    }
    lemma_find_from_skip(rest, pat, 0, i - start);
    lemma_find_from_none_at_end(rest, pat, i - start);
}

/// The pieces with `c` between each two of them.
pub open spec fn joined(parts: Seq<Seq<char>>, c: char) -> Seq<char>
    decreases parts.len(),
{
    if parts.len() == 0 {
        Seq::empty()
    } else if parts.len() == 1 {
        parts[0]
    } else {
        parts[0] + seq![c] + joined(parts.skip(1), c)
    }
}

/// A text without `c` is one piece.
pub proof fn lemma_split_plain(s: Seq<char>, c: char)
    requires
        !s.contains(c),
    ensures
        split_seq(s, seq![c]) == seq![s],
{
    let pat = seq![c];
    if find_from(s, pat, 0) is Some {
        lemma_find_from_some(s, pat, 0);
        let i = find_from(s, pat, 0)->0;
        assert(s.subrange(i, i + 1)[0] == pat[0]);
        assert(s[i] == c);
    }
}

/// A text that starts with a piece without `c` and then has `c` splits into
/// that piece and the pieces of what follows.
pub proof fn lemma_split_first(a: Seq<char>, c: char, rest: Seq<char>)
    requires
        !a.contains(c),
    ensures
        split_seq(a + seq![c] + rest, seq![c]) == seq![a] + split_seq(rest, seq![c]),
{
    let pat = seq![c];
    let s = a + pat + rest;
    let n = a.len() as int;
    assert(s.subrange(n, n + 1) =~= pat);
    assert forall|k: int| 0 <= k < n implies !matches_at(s, pat, k) by {
        if matches_at(s, pat, k) {
            assert(s.subrange(k, k + 1)[0] == pat[0]);
            assert(s[k] == a[k]);
            assert(a.contains(c));
        }
    }
    lemma_find_from_skip(s, pat, 0, n);
    assert(find_from(s, pat, n) == Some(n));
    assert(s.take(n) =~= a);
    assert(s.skip(n + 1) =~= rest);
}

/// Splitting undoes joining: pieces without `c`, joined by `c`, come back as
/// they were.
pub proof fn lemma_split_joined(parts: Seq<Seq<char>>, c: char)
    requires
        parts.len() > 0,
        forall|i: int| 0 <= i < parts.len() ==> !(#[trigger] parts[i]).contains(c),
    ensures
        split_seq(joined(parts, c), seq![c]) == parts,
    decreases parts.len(),
{
    if parts.len() == 1 {
        lemma_split_plain(parts[0], c);
        assert(seq![parts[0]] =~= parts);
    } else {
        let rest = parts.skip(1);
        assert forall|i: int| 0 <= i < rest.len() implies !(#[trigger] rest[i]).contains(c) by {
            assert(rest[i] == parts[i + 1]);
        }
        lemma_split_joined(rest, c);
        lemma_split_first(parts[0], c, joined(rest, c));
        assert(seq![parts[0]] + rest =~= parts);
    }
}

/// Joining one more piece appends `c` and the piece.
pub proof fn lemma_joined_push(parts: Seq<Seq<char>>, last: Seq<char>, c: char)
    requires
        parts.len() > 0,
    ensures
        joined(parts.push(last), c) == joined(parts, c) + seq![c] + last,
    decreases parts.len(),
{
    let all = parts.push(last);
    if parts.len() == 1 {
        assert(all.skip(1) =~= seq![last]);
        assert(joined(all.skip(1), c) == last);
    } else {
        lemma_joined_push(parts.skip(1), last, c);
        assert(all.skip(1) =~= parts.skip(1).push(last));
        assert(all[0] == parts[0]);
        assert(joined(all, c) =~= joined(parts, c) + seq![c] + last);
    }
}

/// Three pieces without `c`, written with `c` between them, split into the
/// three.
pub proof fn lemma_split_three(a: Seq<char>, b: Seq<char>, d: Seq<char>, c: char)
    requires
        !a.contains(c),
        !b.contains(c),
        !d.contains(c),
    ensures
        split_seq(a + seq![c] + b + seq![c] + d, seq![c]) == seq![a, b, d],
{
    let parts = seq![a, b, d];
    assert(joined(parts, c) =~= a + seq![c] + b + seq![c] + d) by {
        reveal_with_fuel(joined, 4);
        assert(parts.skip(1) =~= seq![b, d]);
        assert(parts.skip(1).skip(1) =~= seq![d]);
    }
    lemma_split_joined(parts, c);
}

/// `line` without the carriage return at its end, if it has one.
pub open spec fn strip_cr(line: Seq<char>) -> Seq<char> {
    if line.len() > 0 && line.last() == '\r' {
        line.drop_last()
    } else {
        line
    }
}

/// The lines of `text`. A line ends at a line feed; a carriage return just
/// before the line feed belongs to the line ending too. What follows the last
/// line feed is a line if it is not empty, so the last line may end with a
/// line feed or without one, and an empty text has no lines.
pub open spec fn spec_lines(text: Seq<char>) -> Seq<Seq<char>> {
    let pieces = split_seq(text, seq!['\n']);
    let ended = Seq::new((pieces.len() - 1) as nat, |i: int| strip_cr(pieces[i]));
    if pieces.last().len() == 0 {
        ended
    } else {
        ended.push(pieces.last())
    }
}

/// A text splits into at least one piece.
pub proof fn lemma_split_nonempty(s: Seq<char>, pat: Seq<char>)
    ensures
        split_seq(s, pat).len() > 0,
{
}

/// The lines of `text`; see `spec_lines`.
pub fn lines_of(text: &str) -> (lines: Vec<String>)
    ensures
        lines.deep_view() == spec_lines(text@),
{
    let owned = text.to_owned();
    let pieces = split_line(&owned, "\n");
    proof {
        reveal_strlit("\n");
        assert("\n"@ =~= seq!['\n']);
        lemma_split_nonempty(text@, seq!['\n']);
    }
    let ghost all = pieces.deep_view();
    let mut lines: Vec<String> = Vec::new();
    let mut i: usize = 0;
    let last = pieces.len() - 1;
    assert(lines.deep_view() =~= Seq::new(0, |k: int| strip_cr(all[k])));
    while i < last
        invariant
            i <= last,
            last == pieces.len() - 1,
            all == pieces.deep_view(),
            lines.deep_view() == Seq::new(i as nat, |k: int| strip_cr(all[k])),
        decreases last - i,
    {
        let piece = pieces[i].as_str();
        assert(all[i as int] == piece@);
        let chars = chars_of(piece);
        let line = if chars.len() > 0 && chars[chars.len() - 1] == '\r' {
            let cut = piece.substring_char(0, chars.len() - 1).to_owned();
            assert(cut@ =~= strip_cr(piece@));
            cut
        } else {
            piece.to_owned()
        };
        let ghost before = lines.deep_view();
        lines.push(line);
        i += 1;
        assert(lines.deep_view() =~= before.push(line@));
        assert(lines.deep_view() =~= Seq::new(i as nat, |k: int| strip_cr(all[k])));
    }
    assert(all[last as int] == pieces[last as int]@);
    if !pieces[last].as_str().is_empty() {
        let ghost before = lines.deep_view();
        let line = pieces[last].clone();
        lines.push(line);
        assert(lines.deep_view() =~= before.push(line@));
    }
    lines
}

/// The path of the file that holds the scene saved as `name`.
pub open spec fn spec_definition_path(name: Seq<char>) -> Seq<char> {
    "resources/definitions/"@ + name + ".csv"@
}

/// The path of the file that holds the scene saved as `name`:
/// `resources/definitions/`, the name, and `.csv`.
pub fn definition_path(name: &str) -> (path: String)
    ensures
        path@ == spec_definition_path(name@),
{
    let mut path = String::from_str("resources/definitions/");
    path.append(name);
    path.append(".csv");
    path
}

/// How many characters of a file name are its listed name: as many as the
/// name has bytes but for four, the dot and the three letters of its kind, and
/// no more than it has characters.
pub open spec fn listed_len(file_name: &str) -> int {
    let bytes = file_name.len() - 4;
    if bytes < file_name@.len() {
        bytes
    } else {
        file_name@.len() as int
    }
}

/// The name under which a file is listed: its name without the dot and the
/// three letters at its end.
pub fn listed_name(file_name: &str) -> (name: String)
    requires
        file_name.len() >= 4,
    ensures
        name@ == file_name@.take(listed_len(file_name)),
{
    let bytes = file_name.len() - 4;
    let chars = file_name.unicode_len();
    let count = if bytes < chars {
        bytes
    } else {
        chars
    };
    let name = file_name.substring_char(0, count).to_owned();
    assert(name@ =~= file_name@.take(listed_len(file_name)));
    name
}

} // verus!
