//! Positions inside a source text.
//!
//! A [`TextIndex`] holds the line, column (both zero-indexed) and utf-8/utf-16 offsets of a position
//! in the text.
use vstd::prelude::*;
use vstd::std_specs::iter::IteratorSpec;

use crate::text::{decimal, decimal_succ, push_str};

verus! {

broadcast use vstd::string::group_string_axioms;

/// A position inside of the source code
///
/// Lines and columns start at 0.
#[derive(Debug, Hash, Copy, Clone, PartialEq, Eq, Structural)]
pub struct TextIndex {
    pub utf8: usize,
    pub utf16: usize,
    pub line: usize,
    pub column: usize,
}

impl Default for TextIndex {
    fn default() -> (z: TextIndex)
        ensures
            z@ == pos_zero(),
    {
        TextIndex { utf8: 0, utf16: 0, line: 0, column: 0 }
    }
}

/// A span of source code
pub type TextRange = core::ops::Range<TextIndex>;

/// The mathematical value of a [`TextIndex`]
pub struct TextPos {
    pub utf8: nat,
    pub utf16: nat,
    pub line: nat,
    pub column: nat,
}

impl View for TextIndex {
    type V = TextPos;

    open spec fn view(&self) -> TextPos {
        TextPos {
            utf8: self.utf8 as nat,
            utf16: self.utf16 as nat,
            line: self.line as nat,
            column: self.column as nat,
        }
    }
}

/// A location as shown to users: the line and the column, counted from one
pub open spec fn location_text(loc: TextIndex) -> Seq<char> {
    decimal(loc.line as nat + 1) + ":"@ + decimal(loc.column as nat + 1)
}

/// The start of a text
pub open spec fn pos_zero() -> TextPos {
    TextPos { utf8: 0, utf16: 0, line: 0, column: 0 }
}

/// Number of bytes of the UTF-8 encoding of a character
pub open spec fn spec_len_utf8(c: char) -> nat {
    let u = c as u32;
    if u < 0x80 {
        1
    } else if u < 0x800 {
        2
    } else if u < 0x10000 {
        3
    } else {
        4
    }
}

/// Number of code units of the UTF-16 encoding of a character
pub open spec fn spec_len_utf16(c: char) -> nat {
    if (c as u32) < 0x10000 {
        1
    } else {
        2
    }
}

/// Whether a character is ASCII
pub open spec fn spec_is_ascii(c: char) -> bool {
    (c as u32) < 0x80
}

/// The Unicode line separator and paragraph separator
pub open spec fn is_unicode_line_break(c: char) -> bool {
    c == '\u{2028}' || c == '\u{2029}'
}

/// One step of [`TextIndex::advance`]: the position after `c`, knowing the character that
/// follows it (if any).
///
/// LF, CR, LS and PS start a new line, except a CR directly followed by a LF (the line is
/// counted on the LF). Every other character takes one column.
pub open spec fn spec_advance(p: TextPos, c: char, next: Option<char>) -> TextPos {
    let newline = (c == '\n' || c == '\r' || is_unicode_line_break(c)) && !(c == '\r' && next
        == Some('\n'));
    let crlf = c == '\r' && next == Some('\n');
    TextPos {
        utf8: p.utf8 + spec_len_utf8(c),
        utf16: p.utf16 + spec_len_utf16(c),
        line: if newline {
            p.line + 1
        } else {
            p.line
        },
        column: if newline {
            0
        } else if crlf {
            p.column
        } else {
            p.column + 1
        },
    }
}

/// One step of the position model used to complete text ranges (see [`compute_indices`]): LF, LS
/// and PS start a new line, CR takes no column, every other character takes one column.
pub open spec fn spec_step(p: TextPos, c: char) -> TextPos {
    let newline = c == '\n' || is_unicode_line_break(c);
    TextPos {
        utf8: p.utf8 + spec_len_utf8(c),
        utf16: p.utf16 + spec_len_utf16(c),
        line: if newline {
            p.line + 1
        } else {
            p.line
        },
        column: if newline {
            0
        } else if c == '\r' {
            p.column
        } else {
            p.column + 1
        },
    }
}

/// The position reached from `p` after stepping over all the characters of `cs`
pub open spec fn steps_from(p: TextPos, cs: Seq<char>) -> TextPos
    decreases cs.len(),
{
    if cs.len() == 0 {
        p
    } else {
        spec_step(steps_from(p, cs.drop_last()), cs.last())
    }
}

/// The position reached after stepping over all the characters of `cs` from the start of the text
pub open spec fn position_after(cs: Seq<char>) -> TextPos {
    steps_from(pos_zero(), cs)
}

/// The byte offset `o` falls on a character boundary of `cs`
pub open spec fn is_boundary(cs: Seq<char>, o: nat) -> bool {
    exists|k: int| 0 <= k <= cs.len() && #[trigger] position_after(cs.take(k)).utf8 == o
}

/// The position of the character boundary `o` of `cs`
pub open spec fn position_at(cs: Seq<char>, o: nat) -> TextPos {
    let k = choose|k: int| 0 <= k <= cs.len() && #[trigger] position_after(cs.take(k)).utf8 == o;
    position_after(cs.take(k))
}

/// `p` is the position after some prefix of `cs`
pub open spec fn is_position_of(cs: Seq<char>, p: TextPos) -> bool {
    exists|k: int| 0 <= k <= cs.len() && #[trigger] position_after(cs.take(k)) == p
}

/// Number of bytes of the UTF-8 encoding of a character
pub fn len_utf8(c: char) -> (n: usize)
    ensures
        n == spec_len_utf8(c),
{
    let u = c as u32;
    if u < 0x80 {
        1
    } else if u < 0x800 {
        2
    } else if u < 0x10000 {
        3
    } else {
        4
    }
}

/// Number of code units of the UTF-16 encoding of a character
pub fn len_utf16(c: char) -> (n: usize)
    ensures
        n == spec_len_utf16(c),
{
    if (c as u32) < 0x10000 {
        1
    } else {
        2
    }
}

/// The characters of a string slice
pub fn chars_of(s: &str) -> (v: Vec<char>)
    ensures
        v@ == s@,
{
    let mut v: Vec<char> = Vec::new();
    for c in it: s.chars()
        invariant
            v@ == it.seq().take(it.index() as int),
    {
        v.push(c);
    }
    v
}

} // verus!

verus! {

/// The operation to perform on the `column` field of a [`TextIndex`]
#[derive(Debug, Clone, Copy, PartialEq, Eq, Structural)]
pub enum Column {
    Increment(usize),
    SetTo(usize),
}

/// An update to perform on a [`TextIndex`] after scanning a chunk of ASCII text
#[derive(Debug, Clone, Copy, PartialEq, Eq, Structural)]
pub struct Advance {
    pub bytes: usize,
    pub lines: usize,
    pub column: Column,
}

/// Number of lanes in a chunk scanned at once
pub const CHUNK_LEN: usize = 32;

/// The advance obtained by scanning the ASCII bytes of `chunk` one after the other: every byte
/// counts in `bytes`, a LF adds a line and resets the column, a CR takes no column, any other byte
/// takes one column.
pub open spec fn spec_scan(chunk: Seq<i8>) -> Advance
    decreases chunk.len(),
{
    if chunk.len() == 0 {
        Advance { bytes: 0, lines: 0, column: Column::Increment(0) }
    } else {
        let a = spec_scan(chunk.drop_last());
        let b = chunk.last();
        Advance {
            bytes: (a.bytes + 1) as usize,
            lines: if b == 10 {
                (a.lines + 1) as usize
            } else {
                a.lines
            },
            column: if b == 10 {
                Column::SetTo(0)
            } else if b == 13 {
                a.column
            } else {
                match a.column {
                    Column::Increment(n) => Column::Increment((n + 1) as usize),
                    Column::SetTo(n) => Column::SetTo((n + 1) as usize),
                }
            },
        }
    }
}

/// Number of leading non-negative (ASCII) bytes of `chunk`
pub open spec fn ascii_prefix_len(chunk: Seq<i8>) -> nat
    decreases chunk.len(),
{
    if chunk.len() == 0 || chunk[0] < 0 {
        0
    } else {
        1 + ascii_prefix_len(chunk.drop_first())
    }
}

/// The position reached from `p` by applying the advance `a`
pub open spec fn apply_advance(p: TextPos, a: Advance) -> TextPos {
    TextPos {
        utf8: p.utf8 + a.bytes as nat,
        utf16: p.utf16 + a.bytes as nat,
        line: p.line + a.lines as nat,
        column: match a.column {
            Column::Increment(n) => p.column + n as nat,
            Column::SetTo(n) => n as nat,
        },
    }
}

/// The bytes of a sequence of ASCII characters
pub open spec fn ascii_bytes(cs: Seq<char>) -> Seq<i8> {
    cs.map_values(|c: char| (c as u32) as i8)
}

/// Every character of `cs` is ASCII
pub open spec fn all_ascii(cs: Seq<char>) -> bool {
    forall|i: int| 0 <= i < cs.len() ==> #[trigger] spec_is_ascii(cs[i])
}

proof fn lemma_scan_bounds(chunk: Seq<i8>)
    requires
        chunk.len() <= CHUNK_LEN,
    ensures
        spec_scan(chunk).bytes == chunk.len(),
        spec_scan(chunk).lines <= chunk.len(),
        match spec_scan(chunk).column {
            Column::Increment(n) => n <= chunk.len(),
            Column::SetTo(n) => n <= chunk.len(),
        },
    decreases chunk.len(),
{
    if chunk.len() > 0 {
        lemma_scan_bounds(chunk.drop_last());
    }
}

/// Scanning the bytes of ASCII characters advances a position exactly as stepping over them
proof fn lemma_scan_steps(p: TextPos, cs: Seq<char>)
    requires
        all_ascii(cs),
        cs.len() <= CHUNK_LEN,
    ensures
        apply_advance(p, spec_scan(ascii_bytes(cs))) == steps_from(p, cs),
    decreases cs.len(),
{
    if cs.len() > 0 {
        let init = cs.drop_last();
        assert(ascii_bytes(init) == ascii_bytes(cs).drop_last());
        lemma_scan_steps(p, init);
        lemma_scan_bounds(ascii_bytes(init));
        let c = cs.last();
        assert(spec_is_ascii(cs[cs.len() - 1]));
        assert((c as u32) < 0x80);
        assert(((c as u32) as i8) as int == (c as u32) as int);
        assert(c == '\n' <==> (c as u32) == 10) by {
            if (c as u32) == 10 {
                vstd::utf8::char_u32_cast(c, 10);
            }
        }
        assert(c == '\r' <==> (c as u32) == 13) by {
            if (c as u32) == 13 {
                vstd::utf8::char_u32_cast(c, 13);
            }
        }
    }
}

impl Advance {
    /// Scan a chunk of text and compute how to advance a [`TextIndex`]
    ///
    /// The index is advanced over the ASCII bytes at the start of the chunk, up to the first
    /// non-ASCII (negative) byte.
    pub fn from(chunk: [i8; 32]) -> (a: Advance)
        ensures
            a == spec_scan(chunk@.take(ascii_prefix_len(chunk@) as int)),
            a.bytes == ascii_prefix_len(chunk@),
    {
        let mut a = Advance { bytes: 0, lines: 0, column: Column::Increment(0) };
        let mut i: usize = 0;
        while i < CHUNK_LEN && chunk[i] >= 0
            invariant
                i <= CHUNK_LEN,
                chunk@.len() == CHUNK_LEN,
                forall|j: int| 0 <= j < i ==> chunk@[j] >= 0,
                a == spec_scan(chunk@.take(i as int)),
            decreases CHUNK_LEN - i,
        {
            proof {
                lemma_scan_bounds(chunk@.take(i as int));
                assert(chunk@.take(i + 1).drop_last() == chunk@.take(i as int));
            }
            let b = chunk[i];
            let column = if b == 10 {
                Column::SetTo(0)
            } else if b == 13 {
                a.column
            } else {
                match a.column {
                    Column::Increment(n) => Column::Increment(n + 1),
                    Column::SetTo(n) => Column::SetTo(n + 1),
                }
            };
            a = Advance {
                bytes: a.bytes + 1,
                lines: if b == 10 {
                    a.lines + 1
                } else {
                    a.lines
                },
                column,
            };
            i = i + 1;
        }
        proof {
            lemma_ascii_prefix_len(chunk@, i as int);
            lemma_scan_bounds(chunk@.take(i as int));
        }
        a
    }
}

/// `i` is the number of leading non-negative bytes when the bytes before it are non-negative and
/// the byte at `i` (if any) is negative
proof fn lemma_ascii_prefix_len(chunk: Seq<i8>, i: int)
    requires
        0 <= i <= chunk.len(),
        forall|j: int| 0 <= j < i ==> chunk[j] >= 0,
        i < chunk.len() ==> chunk[i] < 0,
    ensures
        ascii_prefix_len(chunk) == i,
    decreases chunk.len(),
{
    if chunk.len() > 0 && chunk[0] >= 0 {
        lemma_ascii_prefix_len(chunk.drop_first(), i - 1);
    }
}

} // verus!

verus! {

/// The 32 bytes scanned at once from `slice`, starting at `start`: the bytes before `end`, padded
/// with `-1` (a non-ASCII byte) when there are fewer than 32 of them.
pub open spec fn chunk_window(slice: Seq<i8>, start: int, end: int) -> Seq<i8> {
    Seq::new(CHUNK_LEN as nat, |j: int| if start + j < end { slice[start + j] } else { -1i8 })
}

impl Advance {
    /// Scan the chunk of text starting at byte `start` and compute how much a [`TextIndex`] can be
    /// advanced, until either a non-ASCII character is encountered, the next offset of interest is
    /// reached or 32 bytes have been scanned.
    pub fn scan(slice: &[i8], start: usize, next_offset: usize) -> (a: Advance)
        requires
            start <= next_offset <= slice@.len(),
        ensures
            a == spec_scan(
                chunk_window(slice@, start as int, next_offset as int).take(
                    ascii_prefix_len(chunk_window(slice@, start as int, next_offset as int)) as int,
                ),
            ),
    {
        let mut arr: [i8; 32] = [-1i8; 32];
        let mut j: usize = 0;
        while j < CHUNK_LEN
            invariant
                j <= CHUNK_LEN,
                start <= next_offset <= slice@.len(),
                arr@.len() == CHUNK_LEN,
                forall|k: int| 0 <= k < j ==> arr@[k] == chunk_window(slice@, start as int, next_offset as int)[k],
                forall|k: int| j <= k < CHUNK_LEN ==> arr@[k] == -1i8,
            decreases CHUNK_LEN - j,
        {
            if j < next_offset - start {
                arr[j] = slice[start + j];
            }
            j = j + 1;
        }
        assert(arr@ == chunk_window(slice@, start as int, next_offset as int));
        Advance::from(arr)
    }
}

impl TextIndex {
    /// The start of a text: `TextIndex { utf8: 0, utf16: 0, line: 0, column: 0 }`.
    /// The location as shown to users: the line and the column, counted from one
    pub fn to_string(&self) -> (s: String)
        ensures
            s@ == location_text(*self),
    {
        let mut s = decimal_succ(self.line);
        push_str(&mut s, ":");
        let column = decimal_succ(self.column);
        push_str(&mut s, column.as_str());
        s
    }

    pub fn zero() -> (z: TextIndex)
        ensures
            z@ == pos_zero(),
    {
        TextIndex { utf8: 0, utf16: 0, line: 0, column: 0 }
    }

    /// Advance the index over the character `c`, accounting for lf/cr/ls/ps characters and
    /// combinations (the line of a CR LF pair is counted on the LF).
    ///
    /// This is *not* derived from the definition of 'newline' in the language definition, nor is
    /// it a complete implementation of the Unicode line breaking algorithm.
    pub fn advance(&mut self, c: char, next: Option<&char>)
        requires
            old(self).utf8 + spec_len_utf8(c) <= usize::MAX,
            old(self).utf16 + spec_len_utf16(c) <= usize::MAX,
            old(self).line + 1 <= usize::MAX,
            old(self).column + 1 <= usize::MAX,
        ensures
            final(self)@ == spec_advance(
                old(self)@,
                c,
                match next {
                    Some(n) => Some(*n),
                    None => None,
                },
            ),
    {
        if (c as u32) < 0x80 {
            // fast path for ASCII characters
            self.utf8 = self.utf8 + 1;
            self.utf16 = self.utf16 + 1;
            let crlf = match next {
                Some(n) => c == '\r' && *n == '\n',
                None => false,
            };
            if crlf {
                // the line is counted when processing the \n
            } else if c == '\n' || c == '\r' {
                self.line = self.line + 1;
                self.column = 0;
            } else {
                self.column = self.column + 1;
            }
        } else {
            self.advance_unicode(c);
        }
    }

    /// Advance the index knowing the char `c` is non-ASCII
    pub fn advance_unicode(&mut self, c: char)
        requires
            !spec_is_ascii(c),
            old(self).utf8 + spec_len_utf8(c) <= usize::MAX,
            old(self).utf16 + spec_len_utf16(c) <= usize::MAX,
            old(self).line + 1 <= usize::MAX,
            old(self).column + 1 <= usize::MAX,
        ensures
            final(self)@ == spec_step(old(self)@, c),
            forall|next: Option<char>| final(self)@ == spec_advance(old(self)@, c, next),
    {
        self.utf8 = self.utf8 + len_utf8(c);
        self.utf16 = self.utf16 + len_utf16(c);
        if c == '\u{2028}' || c == '\u{2029}' {
            self.line = self.line + 1;
            self.column = 0;
        } else {
            self.column = self.column + 1;
        }
        proof {
            assert(c != '\n' && c != '\r') by {
                if c == '\n' {
                    vstd::utf8::char_u32_cast(c, 10);
                }
                if c == '\r' {
                    vstd::utf8::char_u32_cast(c, 13);
                }
            }
        }
    }

    /// Advance this index according to the [`Advance`] parameter
    pub fn advance_by(&mut self, advance: &Advance)
        requires
            old(self).utf8 + advance.bytes <= usize::MAX,
            old(self).utf16 + advance.bytes <= usize::MAX,
            old(self).line + advance.lines <= usize::MAX,
            match advance.column {
                Column::Increment(n) => old(self).column + n <= usize::MAX,
                Column::SetTo(_) => true,
            },
        ensures
            final(self)@ == apply_advance(old(self)@, *advance),
    {
        self.utf8 = self.utf8 + advance.bytes;
        self.utf16 = self.utf16 + advance.bytes;
        self.line = self.line + advance.lines;
        match advance.column {
            Column::Increment(n) => self.column = self.column + n,
            Column::SetTo(n) => self.column = n,
        }
    }
}

} // verus!

verus! {

proof fn lemma_steps_append(p: TextPos, a: Seq<char>, b: Seq<char>)
    ensures
        steps_from(p, a + b) == steps_from(steps_from(p, a), b),
    decreases b.len(),
{
    if b.len() == 0 {
        assert(a + b == a);
    } else {
        assert((a + b).drop_last() == a + b.drop_last());
        assert((a + b).last() == b.last());
        lemma_steps_append(p, a, b.drop_last());
    }
}

proof fn lemma_position_take_step(cs: Seq<char>, k: int)
    requires
        0 <= k < cs.len(),
    ensures
        position_after(cs.take(k + 1)) == spec_step(position_after(cs.take(k)), cs[k]),
{
    assert(cs.take(k + 1).drop_last() == cs.take(k));
}

pub(crate) proof fn lemma_position_bounds(cs: Seq<char>, k: int)
    requires
        0 <= k <= cs.len(),
    ensures
        position_after(cs.take(k)).utf8 >= k,
        position_after(cs.take(k)).utf16 <= position_after(cs.take(k)).utf8,
        position_after(cs.take(k)).line <= k,
        position_after(cs.take(k)).column <= k,
    decreases k,
{
    if k > 0 {
        lemma_position_bounds(cs, k - 1);
        lemma_position_take_step(cs, k - 1);
    } else {
        assert(cs.take(0).len() == 0);
    }
}

proof fn lemma_utf8_strict(cs: Seq<char>, i: int, j: int)
    requires
        0 <= i < j <= cs.len(),
    ensures
        position_after(cs.take(i)).utf8 < position_after(cs.take(j)).utf8,
    decreases j,
{
    lemma_position_take_step(cs, j - 1);
    if i < j - 1 {
        lemma_utf8_strict(cs, i, j - 1);
    }
}

/// Positions after prefixes of a text are told apart by their utf-8 offset
pub proof fn lemma_position_unique(cs: Seq<char>, i: int, j: int)
    requires
        0 <= i <= cs.len(),
        0 <= j <= cs.len(),
        position_after(cs.take(i)).utf8 == position_after(cs.take(j)).utf8,
    ensures
        i == j,
{
    if i < j {
        lemma_utf8_strict(cs, i, j);
    } else if j < i {
        lemma_utf8_strict(cs, j, i);
    }
}

proof fn lemma_step_first(cs: Seq<char>)
    requires
        cs.len() > 0,
    ensures
        position_after(cs).utf8 == spec_len_utf8(cs[0]) + position_after(cs.drop_first()).utf8,
    decreases cs.len(),
{
    if cs.len() > 1 {
        lemma_step_first(cs.drop_last());
        assert(cs.drop_last().drop_first() == cs.drop_first().drop_last());
        assert(cs.drop_first().last() == cs.last());
        assert(cs.drop_last()[0] == cs[0]);
    } else {
        assert(cs.drop_last().len() == 0);
        assert(cs.drop_first().len() == 0);
        assert(cs.last() == cs[0]);
        assert(position_after(cs.drop_last()) == pos_zero());
        assert(position_after(cs.drop_first()) == pos_zero());
    }
}

/// The byte length of a text is the utf-8 offset of its end
pub(crate) proof fn lemma_total_len(cs: Seq<char>)
    ensures
        vstd::utf8::encode_utf8(cs).len() == position_after(cs).utf8,
    decreases cs.len(),
{
    if cs.len() > 0 {
        lemma_total_len(cs.drop_first());
        lemma_step_first(cs);
        let c = cs[0];
        vstd::utf8::char_is_scalar(c);
        assert(vstd::utf8::encode_scalar(c as u32).len() == spec_len_utf8(c));
    }
}

/// Build the chunk of the ASCII characters of `cs` starting at `ci`, at most 32 of them and at most
/// `limit` of them, padded with `-1` (a non-ASCII byte).
fn ascii_chunk(cs: &Vec<char>, ci: usize, limit: usize) -> (arr: [i8; 32])
    requires
        ci <= cs@.len(),
    ensures
        ascii_prefix_len(arr@) <= CHUNK_LEN,
        ascii_prefix_len(arr@) <= limit,
        ci + ascii_prefix_len(arr@) <= cs@.len(),
        all_ascii(cs@.subrange(ci as int, ci + ascii_prefix_len(arr@))),
        arr@.take(ascii_prefix_len(arr@) as int) == ascii_bytes(
            cs@.subrange(ci as int, ci + ascii_prefix_len(arr@)),
        ),
        ({
            let p = ascii_prefix_len(arr@);
            p < CHUNK_LEN && p < limit && ci + p < cs@.len() ==> !spec_is_ascii(cs@[ci + p])
        }),
{
    let mut arr: [i8; 32] = [-1i8; 32];
    let mut j: usize = 0;
    while j < CHUNK_LEN && j < limit && j < cs.len() - ci && (cs[ci + j] as u32) < 0x80
        invariant
            j <= CHUNK_LEN,
            j <= limit,
            ci + j <= cs@.len(),
            arr@.len() == CHUNK_LEN,
            forall|k: int| 0 <= k < j ==> arr@[k] >= 0,
            forall|k: int| j <= k < CHUNK_LEN ==> arr@[k] == -1i8,
            all_ascii(cs@.subrange(ci as int, ci + j)),
            arr@.take(j as int) == ascii_bytes(cs@.subrange(ci as int, ci + j)),
        decreases CHUNK_LEN - j,
    {
        let c = cs[ci + j];
        let b = (c as u32) as i8;
        arr[j] = b;
        proof {
            assert(c == cs@[ci + j]);
            let sub = cs@.subrange(ci as int, ci + j);
            assert(cs@.subrange(ci as int, ci + j + 1) == sub.push(c));
            assert(ascii_bytes(sub.push(c)) == ascii_bytes(sub).push(b));
            assert(arr@.take(j + 1) == arr@.take(j as int).push(b));
            assert(all_ascii(sub.push(c))) by {
                assert forall|i: int| 0 <= i < sub.push(c).len() implies #[trigger] spec_is_ascii(
                    sub.push(c)[i],
                ) by {
                    if i < sub.len() {
                        assert(spec_is_ascii(sub[i]));
                    }
                }
            }
        }
        j = j + 1;
    }
    proof {
        lemma_ascii_prefix_len(arr@, j as int);
    }
    arr
}

/// Index of the first offset after `oi` that is past `cur`
fn next_after(offsets: &[usize], oi: usize, cur: usize) -> (r: Option<usize>)
    requires
        oi < offsets@.len(),
        offsets@[oi as int] <= cur,
    ensures
        match r {
            Some(j) => oi < j < offsets@.len() && offsets@[j as int] > cur && (forall|k: int|
                oi <= k < j ==> offsets@[k] <= cur),
            None => forall|k: int| oi <= k < offsets@.len() ==> offsets@[k] <= cur,
        },
{
    let len = offsets.len();
    let mut j = oi;
    while j < len - 1
        invariant
            oi <= j < len,
            len == offsets@.len(),
            forall|k: int| oi <= k <= j ==> offsets@[k] <= cur,
        decreases len - j,
    {
        j = j + 1;
        if offsets[j] > cur {
            return Some(j);
        }
    }
    None
}

} // verus!

verus! {

/// The offsets are sorted in increasing order
pub open spec fn sorted_offsets(offsets: Seq<usize>) -> bool {
    forall|i: int, j: int| 0 <= i <= j < offsets.len() ==> offsets[i] <= offsets[j]
}

/// `offsets` contains the utf-8 offset `o`
pub open spec fn has_offset(offsets: Seq<usize>, o: nat) -> bool {
    exists|i: int| 0 <= i < offsets.len() && offsets[i] == o
}

/// Some index of `res` has the utf-8 offset `o`
pub open spec fn has_index_at(res: Seq<TextIndex>, o: nat) -> bool {
    exists|j: int| 0 <= j < res.len() && res[j].utf8 == o
}

/// `u` is the first character boundary of `cs` at or after the byte offset `o`
pub open spec fn first_boundary_from(cs: Seq<char>, o: nat, u: nat) -> bool {
    &&& is_boundary(cs, u)
    &&& o <= u
    &&& forall|m: int|
        0 <= m <= cs.len() && o <= #[trigger] position_after(cs.take(m)).utf8 ==> u <= position_after(
            cs.take(m),
        ).utf8
}

/// The byte offset `u` is the first character boundary of `cs` at or after one of the offsets
pub open spec fn boundary_of_some(cs: Seq<char>, offsets: Seq<usize>, u: nat) -> bool {
    exists|i: int| 0 <= i < offsets.len() && first_boundary_from(cs, #[trigger] offsets[i] as nat, u)
}

/// Some index of `res` is at the first character boundary of `cs` at or after the byte offset `o`
pub open spec fn has_index_from(cs: Seq<char>, res: Seq<TextIndex>, o: nat) -> bool {
    exists|j: int| 0 <= j < res.len() && first_boundary_from(cs, o, #[trigger] res[j].utf8 as nat)
}

/// The position after `k` characters is the first boundary at or after an offset that lies past the position
/// after `k - 1` characters
proof fn lemma_first_boundary(cs: Seq<char>, k: int, o: nat)
    requires
        0 <= k <= cs.len(),
        o <= position_after(cs.take(k)).utf8,
        k > 0 ==> position_after(cs.take(k - 1)).utf8 < o,
    ensures
        first_boundary_from(cs, o, position_after(cs.take(k)).utf8),
{
    assert(is_boundary(cs, position_after(cs.take(k)).utf8));
    assert forall|m: int|
        0 <= m <= cs.len() && o <= #[trigger] position_after(cs.take(m)).utf8 implies position_after(
        cs.take(k),
    ).utf8 <= position_after(cs.take(m)).utf8 by {
        if m < k {
            if m < k - 1 {
                lemma_utf8_strict(cs, m, k - 1);
            }
        } else if m > k {
            lemma_utf8_strict(cs, k, m);
        }
    }
}

/// The first boundary at or after a boundary is that boundary
pub proof fn lemma_first_boundary_of_boundary(cs: Seq<char>, o: nat, u: nat)
    requires
        is_boundary(cs, o),
        first_boundary_from(cs, o, u),
    ensures
        u == o,
{
    let m = choose|m: int| 0 <= m <= cs.len() && #[trigger] position_after(cs.take(m)).utf8 == o;
    assert(o <= position_after(cs.take(m)).utf8);
}

/// An index at the first boundary at or after one of the offsets is at that offset, where it is a boundary
proof fn lemma_index_at_offset(cs: Seq<char>, offsets: Seq<usize>, u: nat)
    requires
        forall|i: int| 0 <= i < offsets.len() ==> #[trigger] is_boundary(cs, offsets[i] as nat),
        boundary_of_some(cs, offsets, u),
    ensures
        has_offset(offsets, u),
{
    let i = choose|i: int| 0 <= i < offsets.len() && first_boundary_from(cs, #[trigger] offsets[i] as nat, u);
    lemma_first_boundary_of_boundary(cs, offsets[i] as nat, u);
}

/// An offset on a boundary that has an index at the first boundary at or after it has an index at itself
proof fn lemma_offset_has_index(cs: Seq<char>, res: Seq<TextIndex>, o: nat)
    requires
        is_boundary(cs, o),
        has_index_from(cs, res, o),
    ensures
        has_index_at(res, o),
{
    let j = choose|j: int| 0 <= j < res.len() && first_boundary_from(cs, o, #[trigger] res[j].utf8 as nat);
    lemma_first_boundary_of_boundary(cs, o, res[j].utf8 as nat);
}

/// Where every offset falls on a character boundary, the indices of [`compute_indices`] are at the offsets
/// themselves: each index is at one of the offsets, and each offset has an index
pub proof fn lemma_indices_at_offsets(cs: Seq<char>, offsets: Seq<usize>, res: Seq<TextIndex>)
    requires
        forall|i: int| 0 <= i < offsets.len() ==> #[trigger] is_boundary(cs, offsets[i] as nat),
        forall|j: int| 0 <= j < res.len() ==> #[trigger] boundary_of_some(cs, offsets, res[j].utf8 as nat),
        forall|i: int| 0 <= i < offsets.len() ==> #[trigger] has_index_from(cs, res, offsets[i] as nat),
    ensures
        forall|j: int| 0 <= j < res.len() ==> has_offset(offsets, #[trigger] res[j].utf8 as nat),
        forall|i: int| 0 <= i < offsets.len() ==> has_index_at(res, #[trigger] offsets[i] as nat),
{
    assert forall|j: int| 0 <= j < res.len() implies has_offset(offsets, #[trigger] res[j].utf8 as nat) by {
        lemma_index_at_offset(cs, offsets, res[j].utf8 as nat);
    }
    assert forall|i: int| 0 <= i < offsets.len() implies has_index_at(res, #[trigger] offsets[i] as nat) by {
        lemma_offset_has_index(cs, res, offsets[i] as nat);
    }
}

/// Compute the [`TextIndex`] list corresponding to the byte offsets in the given source.
///
/// The list of offsets must be sorted, but it can contain duplicates. The list of offsets must have
/// at least 1 element and the source string slice must not be empty.
///
/// The routine advances a running [`TextIndex`] over the source (in chunks of ASCII bytes, one
/// character at a time otherwise) and stores a copy each time it reaches a desired offset. Each
/// offset gets the index of the first character boundary at or after it (the offset itself where it falls
/// on a boundary); the indices are distinct and in increasing order.
pub fn compute_indices(source: &str, offsets: &[usize]) -> (res: Vec<TextIndex>)
    requires
        source@.len() > 0,
        offsets@.len() > 0,
        sorted_offsets(offsets@),
        forall|i: int| 0 <= i < offsets@.len() ==> #[trigger] offsets@[i] <= position_after(source@).utf8,
        position_after(source@).utf8 <= usize::MAX,
    ensures
        forall|j: int| 0 <= j < res@.len() ==> is_position_of(source@, #[trigger] res@[j]@),
        forall|i: int, j: int| 0 <= i < j < res@.len() ==> res@[i].utf8 < res@[j].utf8,
        forall|j: int| 0 <= j < res@.len() ==> boundary_of_some(source@, offsets@, #[trigger] res@[j].utf8 as nat),
        forall|i: int| 0 <= i < offsets@.len() ==> has_index_from(source@, res@, #[trigger] offsets@[i] as nat),
{
    let cs = chars_of(source);
    let ghost s = source@;
    let n = cs.len();
    let total = source.len();
    proof {
        lemma_total_len(s);
        assert(s.take(n as int) == s);
    }
    let mut res: Vec<TextIndex> = Vec::new();
    let mut current = TextIndex::zero();
    let mut ci: usize = 0;
    let mut oi: usize = 0;
    let mut next_offset = offsets[0];
    let mut ascii_mode = true;
    proof {
        assert(s.take(0).len() == 0);
        assert(position_after(s.take(0)) == pos_zero());
    }
    loop
        invariant
            s == source@,
            cs@ == s,
            n == s.len(),
            n > 0,
            total == position_after(s).utf8,
            total <= usize::MAX,
            sorted_offsets(offsets@),
            forall|i: int| 0 <= i < offsets@.len() ==> #[trigger] offsets@[i] <= total,
            ci <= n,
            current@ == position_after(s.take(ci as int)),
            oi < offsets@.len(),
            next_offset == offsets@[oi as int],
            current.utf8 <= next_offset,
            !ascii_mode ==> (ci < n && !spec_is_ascii(s[ci as int]) && current.utf8 < next_offset),
            forall|j: int| 0 <= j < res@.len() ==> is_position_of(s, #[trigger] res@[j]@),
            forall|i: int, j: int| 0 <= i < j < res@.len() ==> res@[i].utf8 < res@[j].utf8,
            forall|j: int| 0 <= j < res@.len() ==> boundary_of_some(s, offsets@, #[trigger] res@[j].utf8 as nat),
            forall|j: int| 0 <= j < res@.len() ==> #[trigger] res@[j].utf8 < next_offset,
            forall|i: int| 0 <= i < oi ==> has_index_from(s, res@, #[trigger] offsets@[i] as nat),
        decreases n - ci, (if ascii_mode { 1int } else { 0int }), offsets@.len() - oi,
    {
        proof {
            lemma_position_bounds(s, ci as int);
            lemma_prefix_le_total(s, ci as int);
        }
        let ghost old_ci = ci;
        let ghost old_oi = oi;
        let ghost old_current_utf8 = current.utf8;
        let ghost was_ascii = ascii_mode;
        let mut reached = false;
        if ascii_mode {
            let chunk = ascii_chunk(&cs, ci, next_offset - current.utf8);
            let advance = Advance::from(chunk);
            proof {
                let sub = s.subrange(ci as int, ci + advance.bytes);
                lemma_scan_steps(current@, sub);
                lemma_steps_append(pos_zero(), s.take(ci as int), sub);
                assert(s.take(ci as int) + sub == s.take(ci + advance.bytes));
                lemma_position_bounds(s, ci + advance.bytes);
                lemma_prefix_le_total(s, ci + advance.bytes);
                lemma_scan_bounds(chunk@.take(advance.bytes as int));
            }
            current.advance_by(&advance);
            ci = ci + advance.bytes;
            if current.utf8 == next_offset {
                reached = true;
            } else {
                proof {
                    lemma_next_char_not_ascii(s, old_ci as int, ci as int, next_offset as nat);
                }
            }
        } else {
            let c = cs[ci];
            proof {
                lemma_position_take_step(s, ci as int);
                lemma_position_bounds(s, ci + 1);
                lemma_prefix_le_total(s, ci + 1);
            }
            current.advance_unicode(c);
            ci = ci + 1;
            if current.utf8 >= next_offset {
                reached = true;
            }
        }
        if reached {
            let ghost old_res = res@;
            res.push(current);
            proof {
                if ci > 0 {
                    lemma_utf8_strict(s, ci - 1, ci as int);
                }
                assert(was_ascii ==> current.utf8 == next_offset);
                assert(!was_ascii ==> ci - 1 == old_ci && old_current_utf8 == position_after(s.take(ci - 1)).utf8);
                assert(ci > 0 ==> position_after(s.take(ci - 1)).utf8 < next_offset);
                assert forall|i: int| old_oi <= i < offsets@.len() && #[trigger] offsets@[i] <= current.utf8
                    implies first_boundary_from(s, offsets@[i] as nat, current.utf8 as nat) by {
                    assert(offsets@[old_oi as int] <= offsets@[i]);
                    lemma_first_boundary(s, ci as int, offsets@[i] as nat);
                }
                assert(res@.last() == current);
                assert(position_after(s.take(ci as int)) == current@);
                assert forall|j: int| 0 <= j < res@.len() implies is_position_of(
                    s,
                    #[trigger] res@[j]@,
                ) by {
                    if j < old_res.len() {
                        assert(res@[j] == old_res[j]);
                    }
                }
                assert forall|i: int| 0 <= i < old_oi implies has_index_from(
                    s,
                    res@,
                    #[trigger] offsets@[i] as nat,
                ) by {
                    assert(has_index_from(s, old_res, offsets@[i] as nat));
                    let j = choose|j: int|
                        0 <= j < old_res.len() && first_boundary_from(s, offsets@[i] as nat, #[trigger] old_res[j].utf8 as nat);
                    assert(res@[j] == old_res[j]);
                }
                assert forall|j: int| 0 <= j < res@.len() implies boundary_of_some(
                    s,
                    offsets@,
                    #[trigger] res@[j].utf8 as nat,
                ) by {
                    if j < old_res.len() {
                        assert(res@[j] == old_res[j]);
                    } else {
                        assert(first_boundary_from(s, offsets@[old_oi as int] as nat, res@[j].utf8 as nat));
                    }
                }
            }
            match next_after(offsets, oi, current.utf8) {
                Some(j) => {
                    proof {
                        assert forall|i: int| 0 <= i < j implies has_index_from(
                            s,
                            res@,
                            #[trigger] offsets@[i] as nat,
                        ) by {
                            if i >= old_oi {
                                assert(first_boundary_from(s, offsets@[i] as nat, res@[res@.len() - 1].utf8 as nat));
                            }
                        }
                    }
                    oi = j;
                    next_offset = offsets[j];
                },
                None => {
                    proof {
                        assert forall|i: int| 0 <= i < offsets@.len() implies has_index_from(
                            s,
                            res@,
                            #[trigger] offsets@[i] as nat,
                        ) by {
                            if i >= old_oi {
                                assert(first_boundary_from(s, offsets@[i] as nat, res@[res@.len() - 1].utf8 as nat));
                            }
                        }
                    }
                    return res;
                },
            }
        }
        proof {
            lemma_before_offset_not_end(s, ci as int, next_offset as nat);
        }
        if ascii_mode {
            if (cs[ci] as u32) >= 0x80 {
                // a non-ASCII character was found, go on one character at a time
                ascii_mode = false;
            }
        } else if ci == n || (cs[ci] as u32) < 0x80 {
            // the run of non-ASCII characters is over
            proof {
                assert(s[ci - 1] == s[old_ci as int]);
            }
            ascii_mode = true;
        }
    }
}


/// Before the next offset, the text is not over
proof fn lemma_before_offset_not_end(cs: Seq<char>, k: int, o: nat)
    requires
        0 <= k <= cs.len(),
        o <= position_after(cs).utf8,
        position_after(cs.take(k)).utf8 < o,
    ensures
        k < cs.len(),
{
    assert(cs.take(cs.len() as int) == cs);
}


proof fn lemma_prefix_le_total(cs: Seq<char>, k: int)
    requires
        0 <= k <= cs.len(),
    ensures
        position_after(cs.take(k)).utf8 <= position_after(cs).utf8,
{
    if k < cs.len() {
        lemma_utf8_strict(cs, k, cs.len() as int);
    }
    assert(cs.take(cs.len() as int) == cs);
}

pub(crate) proof fn lemma_boundary_le_total(cs: Seq<char>, o: nat)
    requires
        is_boundary(cs, o),
    ensures
        o <= position_after(cs).utf8,
{
    let k = choose|k: int| 0 <= k <= cs.len() && #[trigger] position_after(cs.take(k)).utf8 == o;
    lemma_prefix_le_total(cs, k);
}

/// A boundary offset that lies after the position before a character and at most at the position
/// after it is the position after it.
proof fn lemma_boundary_reached(cs: Seq<char>, k: int, o: nat)
    requires
        0 < k <= cs.len(),
        is_boundary(cs, o),
        position_after(cs.take(k - 1)).utf8 < o <= position_after(cs.take(k)).utf8,
    ensures
        position_after(cs.take(k)).utf8 == o,
{
    let m = choose|m: int| 0 <= m <= cs.len() && #[trigger] position_after(cs.take(m)).utf8 == o;
    if m < k - 1 {
        lemma_utf8_strict(cs, m, k - 1);
    } else if m == k - 1 {
    } else if m > k {
        lemma_utf8_strict(cs, k, m);
    }
}

/// When an ASCII chunk stops before the next offset, the character after it is not ASCII
proof fn lemma_next_char_not_ascii(cs: Seq<char>, start: int, k: int, o: nat)
    requires
        0 <= start <= k <= cs.len(),
        o <= position_after(cs).utf8,
        position_after(cs.take(k)).utf8 < o,
        k - start < CHUNK_LEN ==> (k < cs.len() ==> !spec_is_ascii(cs[k])),
    ensures
        k < cs.len(),
{
    assert(cs.take(cs.len() as int) == cs);
}



/// Whether every offset falls on a character boundary of the text (the offsets are sorted)
pub fn offsets_on_boundaries(source: &str, offsets: &[usize]) -> (b: bool)
    requires
        sorted_offsets(offsets@),
        position_after(source@).utf8 <= usize::MAX,
    ensures
        b == forall|i: int| 0 <= i < offsets@.len() ==> is_boundary(source@, #[trigger] offsets@[i] as nat),
{
    let cs = chars_of(source);
    let ghost s = source@;
    let n = cs.len();
    let total = source.len();
    proof {
        lemma_total_len(s);
        assert(s.take(n as int) == s);
        assert(s.take(0).len() == 0);
        assert(position_after(s.take(0)) == pos_zero());
    }
    let mut pos: usize = 0;
    let mut k: usize = 0;
    let mut i: usize = 0;
    while i < offsets.len()
        invariant
            s == source@,
            cs@ == s,
            n == s.len(),
            total == position_after(s).utf8,
            sorted_offsets(offsets@),
            i <= offsets@.len(),
            k <= n,
            pos == position_after(s.take(k as int)).utf8,
            i > 0 ==> pos == offsets@[i - 1],
            i == 0 ==> pos == 0,
            forall|j: int| 0 <= j < i ==> is_boundary(s, #[trigger] offsets@[j] as nat),
        decreases offsets@.len() - i,
    {
        let o = offsets[i];
        let ghost start_k = k;
        proof {
            if i > 0 {
                assert(offsets@[i - 1] <= offsets@[i as int]);
            }
        }
        while k < n && pos < o
            invariant
                s == source@,
                cs@ == s,
                n == s.len(),
                total == position_after(s).utf8,
                start_k <= k <= n,
                pos == position_after(s.take(k as int)).utf8,
                k == start_k ==> pos <= o,
                k > start_k ==> position_after(s.take(k - 1)).utf8 < o,
            decreases n - k,
        {
            proof {
                lemma_position_take_step(s, k as int);
                lemma_prefix_le_total(s, k + 1);
            }
            pos = pos + len_utf8(cs[k]);
            k = k + 1;
        }
        if pos != o {
            proof {
                assert(s.take(n as int) == s);
                if is_boundary(s, o as nat) {
                    if pos < o {
                        lemma_boundary_le_total(s, o as nat);
                    } else {
                        lemma_boundary_reached(s, k as int, o as nat);
                    }
                }
                assert(!is_boundary(source@, offsets@[i as int] as nat));
            }
            return false;
        }
        proof {
            assert(position_after(s.take(k as int)).utf8 == o);
            assert(is_boundary(s, o as nat));
        }
        i = i + 1;
    }
    true
}

/// The character after position `i` of `cs`, if any
pub open spec fn next_char(cs: Seq<char>, i: int) -> Option<char> {
    if i + 1 < cs.len() {
        Some(cs[i + 1])
    } else {
        None
    }
}

/// The position reached from the start of the text by [`TextIndex::advance`] over the first `k` characters of
/// `cs`, each step knowing the character that follows
pub open spec fn advanced_to(cs: Seq<char>, k: int) -> TextPos
    decreases k,
{
    if k <= 0 {
        pos_zero()
    } else {
        spec_advance(advanced_to(cs, k - 1), cs[k - 1], next_char(cs, k - 1))
    }
}

/// The position reached by [`TextIndex::advance`] at the character boundary `o` of `cs`
pub open spec fn advanced_at(cs: Seq<char>, o: nat) -> TextPos {
    let k = choose|k: int| 0 <= k <= cs.len() && #[trigger] position_after(cs.take(k)).utf8 == o;
    advanced_to(cs, k)
}

/// Every CR of `cs` is directly followed by a LF
pub open spec fn no_lone_cr(cs: Seq<char>) -> bool {
    forall|i: int| 0 <= i < cs.len() && #[trigger] cs[i] == '\r' ==> i + 1 < cs.len() && cs[i + 1] == '\n'
}

/// Where every CR is followed by a LF, advancing character by character (knowing the next character) reaches
/// the positions of the model that completes text ranges
pub proof fn lemma_advance_is_step(cs: Seq<char>, k: int)
    requires
        no_lone_cr(cs),
        0 <= k <= cs.len(),
    ensures
        advanced_to(cs, k) == position_after(cs.take(k)),
    decreases k,
{
    if k > 0 {
        lemma_advance_is_step(cs, k - 1);
        lemma_position_take_step(cs, k - 1);
        if cs[k - 1] == '\r' {
            assert(next_char(cs, k - 1) == Some('\n'));
        }
    } else {
        assert(cs.take(0).len() == 0);
        assert(position_after(cs.take(0)) == pos_zero());
    }
}

/// Where every CR is followed by a LF, the position of a character boundary is the one that advancing
/// character by character reaches
pub proof fn lemma_position_at_advance(cs: Seq<char>, o: nat)
    requires
        no_lone_cr(cs),
        is_boundary(cs, o),
    ensures
        position_at(cs, o) == advanced_at(cs, o),
{
    let k = choose|k: int| 0 <= k <= cs.len() && #[trigger] position_after(cs.take(k)).utf8 == o;
    lemma_advance_is_step(cs, k);
}

/// The distinct values of a sorted sequence, in order
pub open spec fn distinct_offsets(s: Seq<usize>) -> Seq<usize>
    decreases s.len(),
{
    if s.len() == 0 {
        Seq::empty()
    } else {
        let d = distinct_offsets(s.drop_last());
        if d.len() > 0 && d.last() == s.last() {
            d
        } else {
            d.push(s.last())
        }
    }
}

proof fn lemma_distinct_offsets(s: Seq<usize>)
    requires
        sorted_offsets(s),
    ensures
        forall|i: int, j: int|
            0 <= i < j < distinct_offsets(s).len() ==> distinct_offsets(s)[i] < distinct_offsets(s)[j],
        forall|x: usize| distinct_offsets(s).contains(x) <==> s.contains(x),
        s.len() > 0 ==> distinct_offsets(s).len() > 0 && distinct_offsets(s).last() == s.last(),
    decreases s.len(),
{
    if s.len() > 0 {
        let t = s.drop_last();
        assert(sorted_offsets(t));
        lemma_distinct_offsets(t);
        let d = distinct_offsets(t);
        if t.len() > 0 {
            assert(t.last() <= s.last());
        }
        assert forall|x: usize| distinct_offsets(s).contains(x) <==> s.contains(x) by {
            if s.contains(x) && x != s.last() {
                let i = choose|i: int| 0 <= i < s.len() && s[i] == x;
                assert(t[i] == x);
                assert(t.contains(x));
            }
            if t.contains(x) {
                let i = choose|i: int| 0 <= i < t.len() && t[i] == x;
                assert(s[i] == x);
            }
            if distinct_offsets(s).contains(x) && !(d.len() > 0 && d.last() == s.last()) {
                let i = choose|i: int| 0 <= i < d.len() + 1 && d.push(s.last())[i] == x;
                if i < d.len() {
                    assert(d.contains(d[i]));
                }
            }
            if d.len() > 0 && d.last() == s.last() && x == s.last() {
                assert(d.contains(d[d.len() - 1]));
            }
            if !(d.len() > 0 && d.last() == s.last()) && d.contains(x) {
                let i = choose|i: int| 0 <= i < d.len() && d[i] == x;
                assert(d.push(s.last())[i] == x);
            }
            if !(d.len() > 0 && d.last() == s.last()) && x == s.last() {
                assert(d.push(s.last())[d.len() as int] == x);
            }
        }
    }
}

proof fn lemma_same_increasing(a: Seq<usize>, b: Seq<usize>)
    requires
        forall|i: int, j: int| 0 <= i < j < a.len() ==> a[i] < a[j],
        forall|i: int, j: int| 0 <= i < j < b.len() ==> b[i] < b[j],
        forall|x: usize| a.contains(x) <==> b.contains(x),
    ensures
        a == b,
    decreases a.len() + b.len(),
{
    if a.len() == 0 {
        if b.len() > 0 {
            assert(b.contains(b[0]));
        }
        assert(a =~= b);
    } else if b.len() == 0 {
        assert(a.contains(a[0]));
    } else {
        assert(a.contains(a.last()));
        assert(b.contains(b.last()));
        let p = choose|p: int| 0 <= p < b.len() && b[p] == a.last();
        let q = choose|q: int| 0 <= q < a.len() && a[q] == b.last();
        assert(a.last() == b.last()) by {
            if q < a.len() - 1 {
                assert(a[q] < a[a.len() - 1]);
            }
            if p < b.len() - 1 {
                assert(b[p] < b[b.len() - 1]);
            }
        }
        let a1 = a.drop_last();
        let b1 = b.drop_last();
        assert forall|x: usize| a1.contains(x) <==> b1.contains(x) by {
            if a1.contains(x) {
                let i = choose|i: int| 0 <= i < a1.len() && a1[i] == x;
                assert(a[i] < a.last());
                assert(a.contains(x));
                let j = choose|j: int| 0 <= j < b.len() && b[j] == x;
                assert(j != b.len() - 1);
                assert(b1[j] == x);
            }
            if b1.contains(x) {
                let i = choose|i: int| 0 <= i < b1.len() && b1[i] == x;
                assert(b[i] < b.last());
                assert(b.contains(x));
                let j = choose|j: int| 0 <= j < a.len() && a[j] == x;
                assert(j != a.len() - 1);
                assert(a1[j] == x);
            }
        }
        lemma_same_increasing(a1, b1);
        assert(a =~= a1.push(a.last()));
        assert(b =~= b1.push(b.last()));
    }
}

/// Where the offsets fall on character boundaries, what [`compute_indices`] states of its result gives one index
/// per distinct offset, in increasing order, each the position that advancing character by character reaches
/// there (where every CR is followed by a LF)
pub proof fn lemma_compute_indices_law(source: Seq<char>, offsets: Seq<usize>, res: Seq<TextIndex>)
    requires
        sorted_offsets(offsets),
        no_lone_cr(source),
        forall|i: int| 0 <= i < offsets.len() ==> #[trigger] is_boundary(source, offsets[i] as nat),
        forall|j: int| 0 <= j < res.len() ==> is_position_of(source, #[trigger] res[j]@),
        forall|i: int, j: int| 0 <= i < j < res.len() ==> res[i].utf8 < res[j].utf8,
        forall|j: int| 0 <= j < res.len() ==> #[trigger] boundary_of_some(source, offsets, res[j].utf8 as nat),
        forall|i: int| 0 <= i < offsets.len() ==> #[trigger] has_index_from(source, res, offsets[i] as nat),
    ensures
        res.len() == distinct_offsets(offsets).len(),
        forall|i: int|
            0 <= i < res.len() ==> (#[trigger] res[i]).utf8 == distinct_offsets(offsets)[i] && res[i]@
                == advanced_at(source, res[i].utf8 as nat),
{
    lemma_indices_at_offsets(source, offsets, res);
    let a = res.map_values(|t: TextIndex| t.utf8);
    let d = distinct_offsets(offsets);
    lemma_distinct_offsets(offsets);
    assert forall|x: usize| a.contains(x) <==> d.contains(x) by {
        if a.contains(x) {
            let j = choose|j: int| 0 <= j < a.len() && a[j] == x;
            assert(has_offset(offsets, res[j].utf8 as nat));
            let i = choose|i: int| 0 <= i < offsets.len() && offsets[i] == res[j].utf8;
            assert(offsets.contains(offsets[i]));
        }
        if d.contains(x) {
            assert(offsets.contains(x));
            let i = choose|i: int| 0 <= i < offsets.len() && offsets[i] == x;
            assert(has_index_at(res, offsets[i] as nat));
            let j = choose|j: int| 0 <= j < res.len() && res[j].utf8 == offsets[i];
            assert(a[j] == x);
        }
    }
    lemma_same_increasing(a, d);
    assert forall|i: int| 0 <= i < res.len() implies (#[trigger] res[i]).utf8 == d[i] && res[i]@
        == advanced_at(source, res[i].utf8 as nat) by {
        assert(a[i] == res[i].utf8);
        let p = res[i]@;
        assert(is_position_of(source, p));
        let k1 = choose|k: int| 0 <= k <= source.len() && #[trigger] position_after(source.take(k)) == p;
        assert(position_after(source.take(k1)).utf8 == p.utf8);
        let k2 = choose|k: int|
            0 <= k <= source.len() && #[trigger] position_after(source.take(k)).utf8 == p.utf8;
        lemma_position_unique(source, k1, k2);
        lemma_advance_is_step(source, k2);
    }
}

} // verus!
