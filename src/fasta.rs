use vstd::prelude::*;
use vstd::string::*;

use crate::logline::{split_on, split_text};

verus! {

/// Unicode `White_Space` characters, which `char::is_whitespace` accepts.
pub open spec fn is_white_space(c: char) -> bool {
    ('\u{9}' <= c && c <= '\u{d}') || c == ' ' || c == '\u{85}' || c == '\u{a0}' || c
        == '\u{1680}' || ('\u{2000}' <= c && c <= '\u{200a}') || c == '\u{2028}' || c
        == '\u{2029}' || c == '\u{202f}' || c == '\u{205f}' || c == '\u{3000}'
}

/// Whether `c` is a Unicode `White_Space` character.
pub fn white_space(c: char) -> (r: bool)
    ensures
        r == is_white_space(c),
{
    ('\u{9}' <= c && c <= '\u{d}') || c == ' ' || c == '\u{85}' || c == '\u{a0}' || c
        == '\u{1680}' || ('\u{2000}' <= c && c <= '\u{200a}') || c == '\u{2028}' || c
        == '\u{2029}' || c == '\u{202f}' || c == '\u{205f}' || c == '\u{3000}'
}

/// The characters of a line that are not white space.
pub open spec fn residue_chars(line: Seq<char>) -> Seq<char>
    decreases line.len(),
{
    if line.len() == 0 {
        Seq::empty()
    } else {
        residue_chars(line.drop_last()) + if is_white_space(line.last()) {
            Seq::empty()
        } else {
            seq![line.last()]
        }
    }
}

/// A FASTA header line starts with `>`.
pub open spec fn is_header(line: Seq<char>) -> bool {
    line.len() > 0 && line[0] == '>'
}

/// The residue letters of the lines: header lines dropped, white space removed.
pub open spec fn sequence_of_lines(lines: Seq<Seq<char>>) -> Seq<char>
    decreases lines.len(),
{
    if lines.len() == 0 {
        Seq::empty()
    } else {
        sequence_of_lines(lines.drop_last()) + if is_header(lines.last()) {
            Seq::empty()
        } else {
            residue_chars(lines.last())
        }
    }
}

/// The one-letter sequence of a FASTA text.
pub open spec fn fasta_sequence_of(contents: Seq<char>) -> Seq<char> {
    sequence_of_lines(split_on(contents, '\n'))
}

/// Reads residue sequences from input texts.
#[derive(Debug, Default)]
pub struct InputLoader;

impl InputLoader {

/// Reads the one-letter residue sequence of a FASTA text: lines starting with `>` are
/// headers, white space is ignored. A text with no residue letters is an error.
pub fn fasta_sequence(contents: &str) -> (r: Result<String, String>)
    ensures
        r is Ok <==> fasta_sequence_of(contents@).len() > 0,
        r is Ok ==> r->Ok_0@ == fasta_sequence_of(contents@),
        r is Err ==> r->Err_0@ == "FASTA contained no sequence data"@,
{
    let lines = split_text(contents, '\n');
    let ghost lv = lines@.map_values(|p: String| p@);
    let mut out = String::new();
    let mut k: usize = 0;
    while k < lines.len()
        invariant
            lv == lines@.map_values(|p: String| p@),
            lv == split_on(contents@, '\n'),
            k <= lines@.len(),
            out@ == sequence_of_lines(lv.take(k as int)),
        decreases lines@.len() - k,
    {
        let line = lines[k].as_str();
        assert(lv[k as int] == line@);
        assert(lv.take(k + 1).drop_last() =~= lv.take(k as int));
        let n = line.unicode_len();
        if n > 0 && line.get_char(0) == '>' {
            assert(out@ =~= sequence_of_lines(lv.take(k + 1)));
        } else {
            let ghost start = out@;
            let mut j: usize = 0;
            while j < n
                invariant
                    n == line@.len(),
                    j <= n,
                    out@ == start + residue_chars(line@.take(j as int)),
                decreases n - j,
            {
                let c = line.get_char(j);
                assert(line@.take(j + 1).drop_last() =~= line@.take(j as int));
                let ghost before = out@;
                if !white_space(c) {
                    out.append(line.substring_char(j, j + 1));
                    assert(out@ =~= before.push(c));
                }
                assert(out@ =~= start + residue_chars(line@.take(j + 1)));
                j += 1;
            }
            assert(line@.take(n as int) =~= line@);
            assert(out@ =~= sequence_of_lines(lv.take(k + 1)));
        }
        k += 1;
    }
    assert(lv.take(lines@.len() as int) =~= lv);
    if out.unicode_len() == 0 {
        return Err(String::from_str("FASTA contained no sequence data"));
    }
    Ok(out)
}

}

} // verus!
