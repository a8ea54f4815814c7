//! Text model: line/column positions, and extraction of the prompt around a
//! cursor from a document held in a rope.

use ropey::Rope;
use vstd::prelude::*;

verus! {

#[verifier::external_type_specification]
#[verifier::external_body]
pub struct ExRope(ropey::Rope);

/// The characters that a rope holds, in order.
pub uninterp spec fn rope_text(r: ropey::Rope) -> Seq<char>;

/// A zero-based cursor position: a line, and a column counted in UTF-16 code units.
#[derive(Clone, Copy, Debug, PartialEq, Eq, Structural)]
pub struct Position {
    pub line: u32,
    pub character: u32,
}

/// A span between two positions.
#[derive(Clone, Copy, Debug, PartialEq, Eq, Structural)]
pub struct Range {
    pub start: Position,
    pub end: Position,
}

/// Number of line feeds in `s`.
pub open spec fn nl_count(s: Seq<char>) -> nat
    decreases s.len(),
{
    if s.len() == 0 {
        0
    } else {
        nl_count(s.drop_last()) + if s.last() == '\n' {
            1nat
        } else {
            0nat
        }
    }
}

/// `i` is where line `line` of `text` begins: just after its `line`-th line feed.
pub open spec fn is_line_start(text: Seq<char>, line: nat, i: int) -> bool {
    &&& 0 <= i <= text.len()
    &&& nl_count(text.take(i)) == line
    &&& (i == 0 || text[i - 1] == '\n')
}

/// The index at which line `line` of `text` begins.
pub open spec fn line_start_of(text: Seq<char>, line: nat) -> int {
    choose|i: int| is_line_start(text, line, i)
}

/// Code units that `c` takes in UTF-16.
pub open spec fn utf16_width(c: char) -> nat {
    if (c as u32) >= 0x10000 {
        2
    } else {
        1
    }
}

/// Code units that `s` takes in UTF-16.
pub open spec fn utf16_len(s: Seq<char>) -> nat
    decreases s.len(),
{
    if s.len() == 0 {
        0
    } else {
        utf16_len(s.drop_last()) + utf16_width(s.last())
    }
}

pub open spec fn no_newline(s: Seq<char>) -> bool {
    forall|k: int| 0 <= k < s.len() ==> s[k] != '\n'
}

/// `off` is the character offset in `text` that `pos` designates: on line
/// `pos.line`, after `pos.character` UTF-16 code units of that line.
pub open spec fn is_offset_of(text: Seq<char>, pos: Position, off: int) -> bool {
    let ls = line_start_of(text, pos.line as nat);
    &&& is_line_start(text, pos.line as nat, ls)
    &&& ls <= off <= text.len()
    &&& no_newline(text.subrange(ls, off))
    &&& utf16_len(text.subrange(ls, off)) == pos.character
}

/// `pos` lies inside the bounds of `text`.
pub open spec fn position_in_bounds(text: Seq<char>, pos: Position) -> bool {
    exists|off: int| is_offset_of(text, pos, off)
}

proof fn lemma_nl_count_mono(text: Seq<char>, a: int, b: int)
    requires
        0 <= a <= b <= text.len(),
    ensures
        nl_count(text.take(a)) <= nl_count(text.take(b)),
    decreases b - a,
{
    if a < b {
        assert(text.take(b).drop_last() =~= text.take(b - 1));
        lemma_nl_count_mono(text, a, b - 1);
    }
}

proof fn lemma_line_start_unique(text: Seq<char>, line: nat, i: int, j: int)
    requires
        is_line_start(text, line, i),
        is_line_start(text, line, j),
    ensures
        i == j,
{
    if i < j {
        assert(text.take(j).drop_last() =~= text.take(j - 1));
        lemma_nl_count_mono(text, i, j - 1);
    } else if j < i {
        assert(text.take(i).drop_last() =~= text.take(i - 1));
        lemma_nl_count_mono(text, j, i - 1);
    }
}

/// A line start determines `line_start_of`.
proof fn lemma_line_start_of(text: Seq<char>, line: nat, i: int)
    requires
        is_line_start(text, line, i),
    ensures
        line_start_of(text, line) == i,
        line <= nl_count(text),
{
    let c = line_start_of(text, line);
    assert(is_line_start(text, line, c));
    lemma_line_start_unique(text, line, i, c);
    lemma_nl_count_mono(text, i, text.len() as int);
    assert(text.take(text.len() as int) =~= text);
}

/// Every line start lies on a line that `text` has.
proof fn lemma_line_start_bound(text: Seq<char>, line: nat, i: int)
    requires
        is_line_start(text, line, i),
    ensures
        line <= nl_count(text),
{
    lemma_nl_count_mono(text, i, text.len() as int);
    assert(text.take(text.len() as int) =~= text);
}

proof fn lemma_utf16_step(text: Seq<char>, ls: int, i: int)
    requires
        0 <= ls <= i < text.len(),
    ensures
        utf16_len(text.subrange(ls, i + 1)) == utf16_len(text.subrange(ls, i)) + utf16_width(
            text[i],
        ),
{
    assert(text.subrange(ls, i + 1).drop_last() =~= text.subrange(ls, i));
}

proof fn lemma_utf16_mono(text: Seq<char>, ls: int, a: int, b: int)
    requires
        0 <= ls <= a <= b <= text.len(),
    ensures
        utf16_len(text.subrange(ls, a)) + (b - a) <= utf16_len(text.subrange(ls, b)),
    decreases b - a,
{
    if a < b {
        lemma_utf16_mono(text, ls, a, b - 1);
        lemma_utf16_step(text, ls, b - 1);
    }
}

/// Relies on ropey::Rope::from_str: the rope holds the characters of the text.
#[verifier::external_body]
fn rope_from_str(s: &str) -> (r: Rope)
    ensures
        rope_text(r) == s@,
{
    Rope::from_str(s)
}

/// Relies on ropey::Rope::len_chars: the number of characters held.
#[verifier::external_body]
fn rope_len_chars(r: &Rope) -> (n: usize)
    ensures
        n == rope_text(*r).len(),
{
    r.len_chars()
}

/// Relies on ropey::Rope::len_lines: line feeds plus one (built without the
/// `cr_lines` and `unicode_lines` features, a line feed is the only break).
#[verifier::external_body]
fn rope_len_lines(r: &Rope) -> (n: usize)
    ensures
        n == nl_count(rope_text(*r)) + 1,
{
    r.len_lines()
}

/// Relies on ropey::Rope::line_to_char: the character index where a line begins.
#[verifier::external_body]
fn rope_line_to_char(r: &Rope, line: usize) -> (i: usize)
    requires
        line <= nl_count(rope_text(*r)),
    ensures
        is_line_start(rope_text(*r), line as nat, i as int),
{
    r.line_to_char(line)
}

/// Relies on ropey::Rope::char: the character at an index.
#[verifier::external_body]
fn rope_char(r: &Rope, i: usize) -> (c: char)
    requires
        i < rope_text(*r).len(),
    ensures
        c == rope_text(*r)[i as int],
{
    r.char(i)
}

/// Relies on ropey::Rope::slice: the characters between two indices, as a string.
#[verifier::external_body]
fn rope_slice(r: &Rope, start: usize, end: usize) -> (s: String)
    requires
        start <= end <= rope_text(*r).len(),
    ensures
        s@ == rope_text(*r).subrange(start as int, end as int),
{
    r.slice(start..end).to_string()
}

/// Why no prompt could be taken at a position.
#[derive(Clone, Copy, Debug, PartialEq, Eq, Structural)]
pub enum PromptError {
    /// The line or the column lies outside the document.
    InvalidPosition,
}

/// The text around a cursor: all that precedes it, all that follows it, and
/// the part of its own line that precedes it.
pub struct PromptParts {
    pub offset: usize,
    pub prefix: String,
    pub suffix: String,
    pub line_prefix: String,
}

/// The character offset that `pos` designates in the text held by `rope`.
pub fn position_to_offset(rope: &Rope, pos: Position) -> (r: Result<usize, PromptError>)
    ensures
        match r {
            Ok(off) => is_offset_of(rope_text(*rope), pos, off as int),
            Err(_) => !position_in_bounds(rope_text(*rope), pos),
        },
{
    let ghost text = rope_text(*rope);
    let lines = rope_len_lines(rope);
    if pos.line as usize >= lines {
        proof {
            assert forall|off: int| !is_offset_of(text, pos, off) by {
                if is_offset_of(text, pos, off) {
                    lemma_line_start_bound(
                        text,
                        pos.line as nat,
                        line_start_of(text, pos.line as nat),
                    );
                }
            }
        }
        return Err(PromptError::InvalidPosition);
    }
    let ls = rope_line_to_char(rope, pos.line as usize);
    proof {
        lemma_line_start_of(text, pos.line as nat, ls as int);
    }
    let len = rope_len_chars(rope);
    let mut i: usize = ls;
    let mut col: u64 = 0;
    let mut at_break = false;
    while !at_break && col < pos.character as u64 && i < len
        invariant
            text == rope_text(*rope),
            len == text.len(),
            ls as int == line_start_of(text, pos.line as nat),
            ls <= i <= len,
            no_newline(text.subrange(ls as int, i as int)),
            col == utf16_len(text.subrange(ls as int, i as int)),
            col <= pos.character as u64 + 1,
            i == ls || utf16_len(text.subrange(ls as int, i - 1)) < pos.character,
            at_break ==> i < len && text[i as int] == '\n',
        decreases len - i + if at_break { 0int } else { 1int },
    {
        let c = rope_char(rope, i);
        if c == '\n' {
            at_break = true;
        } else {
            proof {
                lemma_utf16_step(text, ls as int, i as int);
                assert(text.subrange(ls as int, i + 1).drop_last() =~= text.subrange(
                    ls as int,
                    i as int,
                ));
            }
            if (c as u32) >= 0x10000 {
                col = col + 2;
            } else {
                col = col + 1;
            }
            i = i + 1;
        }
    }
    if col == pos.character as u64 {
        Ok(i)
    } else {
        proof {
            assert forall|off: int| !is_offset_of(text, pos, off) by {
                if is_offset_of(text, pos, off) {
                    if off < i {
                        lemma_utf16_mono(text, ls as int, off, i - 1);
                    } else if off > i {
                        if at_break {
                            assert(text.subrange(ls as int, off)[i - ls] == '\n');
                        } else {
                            lemma_utf16_mono(text, ls as int, i as int, off);
                        }
                    }
                }
            }
        }
        Err(PromptError::InvalidPosition)
    }
}

/// Splits `text` at the cursor `pos`: the prefix ends at the cursor's offset,
/// the suffix runs from there to the end, and the line prefix runs from the
/// start of the cursor's line to the cursor.
pub fn extract_prompt(text: &str, pos: Position) -> (r: Result<PromptParts, PromptError>)
    ensures
        match r {
            Ok(p) => {
                &&& is_offset_of(text@, pos, p.offset as int)
                &&& p.prefix@ == text@.subrange(0, p.offset as int)
                &&& p.suffix@ == text@.subrange(p.offset as int, text@.len() as int)
                &&& p.line_prefix@ == text@.subrange(
                    line_start_of(text@, pos.line as nat),
                    p.offset as int,
                )
            },
            Err(e) => e == PromptError::InvalidPosition && !position_in_bounds(text@, pos),
        },
{
    let rope = rope_from_str(text);
    match position_to_offset(&rope, pos) {
        Err(e) => Err(e),
        Ok(offset) => {
            let len = rope_len_chars(&rope);
            proof {
                lemma_line_start_bound(
                    text@,
                    pos.line as nat,
                    line_start_of(text@, pos.line as nat),
                );
            }
            let ls = rope_line_to_char(&rope, pos.line as usize);
            proof {
                lemma_line_start_of(text@, pos.line as nat, ls as int);
            }
            let prefix = rope_slice(&rope, 0, offset);
            let suffix = rope_slice(&rope, offset, len);
            let line_prefix = rope_slice(&rope, ls, offset);
            Ok(PromptParts { offset, prefix, suffix, line_prefix })
        },
    }
}

/// A position designates at most one offset.
pub proof fn lemma_offset_unique(text: Seq<char>, pos: Position, a: int, b: int)
    requires
        is_offset_of(text, pos, a),
        is_offset_of(text, pos, b),
    ensures
        a == b,
{
    let ls = line_start_of(text, pos.line as nat);
    if a < b {
        lemma_utf16_mono(text, ls, a, b);
    } else if b < a {
        lemma_utf16_mono(text, ls, b, a);
    }
}

/// For a position inside a document, the prefix and the suffix taken at its
/// offset put together give back the whole text, and the prefix ends exactly
/// at that offset.
pub proof fn lemma_prefix_suffix_split(text: Seq<char>, pos: Position, off: int)
    requires
        is_offset_of(text, pos, off),
    ensures
        text.subrange(0, off) + text.subrange(off, text.len() as int) == text,
        text.subrange(0, off).len() == off,
        forall|o: int| is_offset_of(text, pos, o) ==> o == off,
{
    assert(text.subrange(0, off) + text.subrange(off, text.len() as int) =~= text);
    assert forall|o: int| is_offset_of(text, pos, o) implies o == off by {
        lemma_offset_unique(text, pos, o, off);
    }
}

} // verus!
