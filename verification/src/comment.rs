//! The grammar of Solidity doc-comments, and their parser.
//!
//! A doc-comment is either a single line starting with `///`, or a block delimited by `/**` and `*/`. Each line of
//! the comment is a `NatSpec` item: an optional tag (`@notice`, `@param name`, ...) followed by free text.
use vstd::prelude::*;

use crate::definitions::Identifier;
use crate::natspec::{populate_return_spec, ItemView, KindView, NatSpec, NatSpecItem, NatSpecKind};
use crate::text::{push_char, push_str};
use crate::textindex::chars_of;

verus! {

/// A space or a tab
pub open spec fn is_space(c: char) -> bool {
    c == ' ' || c == '\t'
}

/// A character with the Unicode `White_Space` property
pub open spec fn is_whitespace(c: char) -> bool {
    ||| '\u{9}' <= c && c <= '\u{d}'
    ||| c == ' '
    ||| c == '\u{85}'
    ||| c == '\u{a0}'
    ||| c == '\u{1680}'
    ||| '\u{2000}' <= c && c <= '\u{200a}'
    ||| c == '\u{2028}'
    ||| c == '\u{2029}'
    ||| c == '\u{202f}'
    ||| c == '\u{205f}'
    ||| c == '\u{3000}'
}

/// Whether `c` has the Unicode `White_Space` property (as `char::is_whitespace`)
pub fn char_is_whitespace(c: char) -> (b: bool)
    ensures
        b == is_whitespace(c),
{
    ('\u{9}' <= c && c <= '\u{d}') || c == ' ' || c == '\u{85}' || c == '\u{a0}' || c == '\u{1680}'
        || ('\u{2000}' <= c && c <= '\u{200a}') || c == '\u{2028}' || c == '\u{2029}' || c
        == '\u{202f}' || c == '\u{205f}' || c == '\u{3000}'
}

/// The position after the spaces and tabs that start at `p`
pub open spec fn skip_spaces(s: Seq<char>, p: int) -> int
    decreases s.len() - p,
{
    if 0 <= p < s.len() && is_space(s[p]) {
        skip_spaces(s, p + 1)
    } else {
        p
    }
}

/// The position after the `*` that start at `p`
pub open spec fn skip_stars(s: Seq<char>, p: int) -> int
    decreases s.len() - p,
{
    if 0 <= p < s.len() && s[p] == '*' {
        skip_stars(s, p + 1)
    } else {
        p
    }
}

/// The position after the characters that start at `p` and are not whitespace
pub open spec fn ident_end(s: Seq<char>, p: int) -> int
    decreases s.len() - p,
{
    if 0 <= p < s.len() && !is_whitespace(s[p]) {
        ident_end(s, p + 1)
    } else {
        p
    }
}

/// The text `lit` occurs at position `p`
pub open spec fn has_at(s: Seq<char>, p: int, lit: Seq<char>) -> bool {
    0 <= p && p + lit.len() <= s.len() && s.subrange(p, p + lit.len()) == lit
}

/// A name after a tag: one or more spaces, then one or more characters that are not whitespace
pub open spec fn name_after(s: Seq<char>, p: int) -> Option<(Seq<char>, int)> {
    let q = skip_spaces(s, p);
    let e = ident_end(s, q);
    if q > p && e > q {
        Some((s.subrange(q, e), e))
    } else {
        None
    }
}

/// The tag at position `p`, if any, with the position after it
pub open spec fn kind_at(s: Seq<char>, p: int) -> Option<(KindView, int)> {
    if has_at(s, p, "@title"@) {
        Some((KindView::Title, p + 6))
    } else if has_at(s, p, "@author"@) {
        Some((KindView::Author, p + 7))
    } else if has_at(s, p, "@notice"@) {
        Some((KindView::Notice, p + 7))
    } else if has_at(s, p, "@dev"@) {
        Some((KindView::Dev, p + 4))
    } else if has_at(s, p, "@param"@) {
        match name_after(s, p + 6) {
            Some((n, e)) => Some((KindView::Param { name: n }, e)),
            None => None,
        }
    } else if has_at(s, p, "@return"@) {
        Some((KindView::Return { name: None }, p + 7))
    } else if has_at(s, p, "@inheritdoc"@) {
        match name_after(s, p + 11) {
            Some((n, e)) => Some((KindView::Inheritdoc { parent: n }, e)),
            None => None,
        }
    } else if has_at(s, p, "@custom:"@) {
        let e = ident_end(s, p + 8);
        if e > p + 8 {
            Some((KindView::Custom { tag: s.subrange(p + 8, e) }, e))
        } else {
            None
        }
    } else {
        None
    }
}

/// The tag at position `p`, defaulting to `@notice` when there is none, with the position after it
pub open spec fn kind_or_notice(s: Seq<char>, p: int) -> (KindView, int) {
    match kind_at(s, p) {
        Some(k) => k,
        None => (KindView::Notice, p),
    }
}

/// The position of the first `\r` or `\n` at or after `p`, or the end of the text
pub open spec fn line_end(s: Seq<char>, p: int) -> int
    decreases s.len() - p,
{
    if 0 <= p < s.len() && s[p] != '\r' && s[p] != '\n' {
        line_end(s, p + 1)
    } else {
        p
    }
}

/// A line ending (`\n` or `\r\n`) at position `p`, with the position after it
pub open spec fn line_ending_at(s: Seq<char>, p: int) -> Option<int> {
    if 0 <= p < s.len() && s[p] == '\n' {
        Some(p + 1)
    } else if has_at(s, p, "\r\n"@) {
        Some(p + 2)
    } else {
        None
    }
}

/// A line ending, or the end of the block, starts at position `p`
pub open spec fn is_terminator(s: Seq<char>, p: int) -> bool {
    ||| s[p] == '\r'
    ||| s[p] == '\n'
    ||| (s[p] == '*' && p + 1 < s.len() && s[p + 1] == '/')
}

/// The position of the first line ending or end of block at or after `p`, if any
pub open spec fn terminator_at(s: Seq<char>, p: int) -> Option<int>
    decreases s.len() - p,
{
    if 0 <= p < s.len() {
        if is_terminator(s, p) {
            Some(p)
        } else {
            terminator_at(s, p + 1)
        }
    } else {
        None
    }
}

/// The item of a single-line comment starting at position `p`, with the position after it
///
/// The text runs to the end of the line; a carriage return that does not start a line ending is refused.
pub open spec fn single_item(s: Seq<char>, p: int) -> Option<(ItemView, int)> {
    let (kind, r) = kind_or_notice(s, skip_spaces(s, p));
    let t = skip_spaces(s, r);
    let e = line_end(s, t);
    if e < s.len() && s[e] == '\r' && !has_at(s, e, "\r\n"@) {
        None
    } else {
        Some((ItemView { kind, comment: s.subrange(t, e) }, e))
    }
}

/// The item of a line of a block comment starting at position `p`, with the position after it
///
/// Leading spaces and stars are skipped; the text runs to the end of the line or of the block.
pub open spec fn block_item(s: Seq<char>, p: int) -> Option<(ItemView, int)> {
    let q = skip_spaces(s, skip_stars(s, skip_spaces(s, p)));
    let (kind, r) = kind_or_notice(s, q);
    let t = skip_spaces(s, r);
    match terminator_at(s, t) {
        Some(e) => Some((ItemView { kind, comment: s.subrange(t, e) }, e)),
        None => None,
    }
}

/// The items of a block comment that follow the one ending at `p`, each after a line ending, with the position
/// after the last one
pub open spec fn more_block_items(s: Seq<char>, p: int) -> (Seq<ItemView>, int)
    decreases s.len() - p,
{
    match line_ending_at(s, p) {
        None => (Seq::empty(), p),
        Some(p2) => match block_item(s, p2) {
            None => (Seq::empty(), p),
            Some((item, p3)) => if p3 <= p || p3 > s.len() {
                (Seq::empty(), p)
            } else {
                let (rest, end) = more_block_items(s, p3);
                (seq![item] + rest, end)
            },
        },
    }
}

/// The items of a block comment starting at position `p`, with the position after the last one
pub open spec fn block_items(s: Seq<char>, p: int) -> (Seq<ItemView>, int) {
    match block_item(s, p) {
        None => (Seq::empty(), p),
        Some((item, p1)) => {
            let (rest, end) = more_block_items(s, p1);
            (seq![item] + rest, end)
        },
    }
}

/// The position after the end of a block comment starting at `p`: an optional line ending, spaces, then
/// stars and a slash
///
/// Stars that are not followed by a slash are consumed; without stars, nothing more is consumed.
pub open spec fn block_end(s: Seq<char>, p: int) -> int {
    let p1 = match line_ending_at(s, p) {
        Some(q) => q,
        None => p,
    };
    let p2 = skip_spaces(s, p1);
    let p3 = skip_stars(s, p2);
    if p3 > p2 && p3 < s.len() && s[p3] == '/' {
        p3 + 1
    } else {
        p3
    }
}

/// The delimiter of a doc-comment
#[derive(Debug, Clone, Copy, PartialEq, Eq, Structural)]
pub enum Delimiter {
    /// `///`
    SingleLine,
    /// `/**`
    Block,
}

/// The error of a text that is not a doc-comment
#[derive(Debug, Clone, Copy, PartialEq, Eq, Structural)]
pub enum CommentError {
    /// The text does not follow the grammar of a doc-comment
    Invalid,
    /// The delimiter is followed by one more delimiter character (`////` or `/***`), which does not make a
    /// doc-comment
    Delimiter(Delimiter),
}

/// The message of a comment error
pub open spec fn comment_error_message(e: CommentError) -> Seq<char> {
    match e {
        CommentError::Invalid => "Parsing Error: ContextError { context: [], cause: None }"@,
        CommentError::Delimiter(Delimiter::SingleLine) => "Parsing Failure: ContextError { context: [Label(\"delimiter\"), Expected(Description(\"///\"))], cause: None }"@,
        CommentError::Delimiter(Delimiter::Block) => "Parsing Failure: ContextError { context: [Label(\"delimiter\"), Expected(Description(\"/**\"))], cause: None }"@,
    }
}

impl CommentError {
    /// The message of the error
    pub fn message(&self) -> (s: String)
        ensures
            s@ == comment_error_message(*self),
    {
        match self {
            CommentError::Invalid => "Parsing Error: ContextError { context: [], cause: None }".to_owned(),
            CommentError::Delimiter(Delimiter::SingleLine) => "Parsing Failure: ContextError { context: [Label(\"delimiter\"), Expected(Description(\"///\"))], cause: None }".to_owned(),
            CommentError::Delimiter(Delimiter::Block) => "Parsing Failure: ContextError { context: [Label(\"delimiter\"), Expected(Description(\"/**\"))], cause: None }".to_owned(),
        }
    }
}

/// The result of parsing a single-line doc-comment at the start of `s`: its items and the number of characters
/// it takes
///
/// A comment made of an empty `@notice` has no items.
pub open spec fn single_line_comment_spec(s: Seq<char>) -> Result<(Seq<ItemView>, int), CommentError> {
    if has_at(s, 0, "///"@) {
        if s.len() > 3 && s[3] == '/' {
            Err(CommentError::Delimiter(Delimiter::SingleLine))
        } else {
            match single_item(s, 3) {
                None => Err(CommentError::Invalid),
                Some((item, e)) => {
                    let end = match line_ending_at(s, e) {
                        Some(q) => q,
                        None => e,
                    };
                    if item.kind is Notice && item.comment.len() == 0 {
                        Ok((Seq::empty(), end))
                    } else {
                        Ok((seq![item], end))
                    }
                },
            }
        }
    } else {
        Err(CommentError::Invalid)
    }
}

/// The result of parsing a block doc-comment at the start of `s`: its items and the number of characters it
/// takes
pub open spec fn multiline_comment_spec(s: Seq<char>) -> Result<(Seq<ItemView>, int), CommentError> {
    if has_at(s, 0, "/**"@) {
        if s.len() > 3 && s[3] == '*' {
            Err(CommentError::Delimiter(Delimiter::Block))
        } else {
            let p = skip_spaces(s, 3);
            let p1 = match line_ending_at(s, p) {
                Some(q) => q,
                None => p,
            };
            let (items, e) = block_items(s, p1);
            Ok((items, block_end(s, e)))
        }
    } else {
        Err(CommentError::Invalid)
    }
}

/// The result of parsing a doc-comment at the start of `s`: its items and the number of characters it takes
pub open spec fn parse_comment_spec(s: Seq<char>) -> Result<(Seq<ItemView>, int), CommentError> {
    if has_at(s, 0, "///"@) {
        single_line_comment_spec(s)
    } else {
        multiline_comment_spec(s)
    }
}

fn skip_spaces_from(cs: &Vec<char>, p: usize) -> (q: usize)
    requires
        p <= cs@.len(),
    ensures
        q == skip_spaces(cs@, p as int),
        p <= q <= cs@.len(),
{
    let mut q = p;
    while q < cs.len() && (cs[q] == ' ' || cs[q] == '\t')
        invariant
            p <= q <= cs@.len(),
            skip_spaces(cs@, q as int) == skip_spaces(cs@, p as int),
        decreases cs@.len() - q,
    {
        q = q + 1;
    }
    q
}

fn skip_stars_from(cs: &Vec<char>, p: usize) -> (q: usize)
    requires
        p <= cs@.len(),
    ensures
        q == skip_stars(cs@, p as int),
        p <= q <= cs@.len(),
{
    let mut q = p;
    while q < cs.len() && cs[q] == '*'
        invariant
            p <= q <= cs@.len(),
            skip_stars(cs@, q as int) == skip_stars(cs@, p as int),
        decreases cs@.len() - q,
    {
        q = q + 1;
    }
    q
}

fn ident_end_from(cs: &Vec<char>, p: usize) -> (q: usize)
    requires
        p <= cs@.len(),
    ensures
        q == ident_end(cs@, p as int),
        p <= q <= cs@.len(),
{
    let mut q = p;
    while q < cs.len() && !char_is_whitespace(cs[q])
        invariant
            p <= q <= cs@.len(),
            ident_end(cs@, q as int) == ident_end(cs@, p as int),
        decreases cs@.len() - q,
    {
        q = q + 1;
    }
    q
}

fn line_end_from(cs: &Vec<char>, p: usize) -> (q: usize)
    requires
        p <= cs@.len(),
    ensures
        q == line_end(cs@, p as int),
        p <= q <= cs@.len(),
{
    let mut q = p;
    while q < cs.len() && cs[q] != '\r' && cs[q] != '\n'
        invariant
            p <= q <= cs@.len(),
            line_end(cs@, q as int) == line_end(cs@, p as int),
        decreases cs@.len() - q,
    {
        q = q + 1;
    }
    q
}

fn terminator_from(cs: &Vec<char>, p: usize) -> (r: Option<usize>)
    requires
        p <= cs@.len(),
    ensures
        match r {
            Some(e) => terminator_at(cs@, p as int) == Some(e as int) && p <= e < cs@.len(),
            None => terminator_at(cs@, p as int) is None,
        },
{
    let mut q = p;
    while q < cs.len()
        invariant
            p <= q <= cs@.len(),
            terminator_at(cs@, q as int) == terminator_at(cs@, p as int),
        decreases cs@.len() - q,
    {
        if cs[q] == '\r' || cs[q] == '\n' || (cs[q] == '*' && q + 1 < cs.len() && cs[q + 1] == '/') {
            return Some(q);
        }
        q = q + 1;
    }
    None
}

/// Whether the text `lit` occurs at position `p`
fn has_at_pos(cs: &Vec<char>, p: usize, lit: &str) -> (b: bool)
    ensures
        b == has_at(cs@, p as int, lit@),
{
    let l = chars_of(lit);
    let n = cs.len();
    if p > n || l.len() > n - p {
        return false;
    }
    let mut i: usize = 0;
    while i < l.len()
        invariant
            n == cs@.len(),
            p + l@.len() <= cs@.len(),
            i <= l@.len(),
            l@ == lit@,
            forall|k: int| 0 <= k < i ==> cs@[p + k] == l@[k],
        decreases l@.len() - i,
    {
        if cs[p + i] != l[i] {
            assert(cs@.subrange(p as int, p + l@.len())[i as int] != l@[i as int]);
            return false;
        }
        i = i + 1;
    }
    assert(cs@.subrange(p as int, p + l@.len()) =~= l@);
    true
}

fn line_ending_from(cs: &Vec<char>, p: usize) -> (r: Option<usize>)
    requires
        p <= cs@.len(),
    ensures
        match r {
            Some(q) => line_ending_at(cs@, p as int) == Some(q as int) && p < q <= cs@.len(),
            None => line_ending_at(cs@, p as int) is None,
        },
{
    if p < cs.len() && cs[p] == '\n' {
        Some(p + 1)
    } else if has_at_pos(cs, p, "\r\n") {
        proof {
            reveal_strlit("\r\n");
        }
        Some(p + 2)
    } else {
        None
    }
}

/// The characters of `cs` between `a` and `b`, as a `String`
fn string_of(cs: &Vec<char>, a: usize, b: usize) -> (s: String)
    requires
        a <= b <= cs@.len(),
    ensures
        s@ == cs@.subrange(a as int, b as int),
{
    let mut s = String::new();
    let mut i = a;
    while i < b
        invariant
            a <= i <= b <= cs@.len(),
            s@ == cs@.subrange(a as int, i as int),
        decreases b - i,
    {
        push_char(&mut s, cs[i]);
        assert(cs@.subrange(a as int, i + 1) =~= cs@.subrange(a as int, i as int).push(cs@[i as int]));
        i = i + 1;
    }
    s
}

fn name_after_pos(cs: &Vec<char>, p: usize) -> (r: Option<(String, usize)>)
    requires
        p <= cs@.len(),
    ensures
        match r {
            Some((n, e)) => name_after(cs@, p as int) == Some((n@, e as int)) && p < e <= cs@.len(),
            None => name_after(cs@, p as int) is None,
        },
{
    let q = skip_spaces_from(cs, p);
    let e = ident_end_from(cs, q);
    if q > p && e > q {
        Some((string_of(cs, q, e), e))
    } else {
        None
    }
}

/// The tag at position `p`, if any, with the position after it
fn kind_at_pos(cs: &Vec<char>, p: usize) -> (r: Option<(NatSpecKind, usize)>)
    requires
        p <= cs@.len(),
    ensures
        match r {
            Some((k, e)) => kind_at(cs@, p as int) == Some((k@, e as int)) && p <= e <= cs@.len(),
            None => kind_at(cs@, p as int) is None,
        },
{
    proof {
        reveal_strlit("@title");
        reveal_strlit("@author");
        reveal_strlit("@notice");
        reveal_strlit("@dev");
        reveal_strlit("@param");
        reveal_strlit("@return");
        reveal_strlit("@inheritdoc");
        reveal_strlit("@custom:");
    }
    let _len = cs.len();
    if has_at_pos(cs, p, "@title") {
        Some((NatSpecKind::Title, p + 6))
    } else if has_at_pos(cs, p, "@author") {
        Some((NatSpecKind::Author, p + 7))
    } else if has_at_pos(cs, p, "@notice") {
        Some((NatSpecKind::Notice, p + 7))
    } else if has_at_pos(cs, p, "@dev") {
        Some((NatSpecKind::Dev, p + 4))
    } else if has_at_pos(cs, p, "@param") {
        match name_after_pos(cs, p + 6) {
            Some((name, e)) => Some((NatSpecKind::Param { name }, e)),
            None => None,
        }
    } else if has_at_pos(cs, p, "@return") {
        Some((NatSpecKind::Return { name: None }, p + 7))
    } else if has_at_pos(cs, p, "@inheritdoc") {
        match name_after_pos(cs, p + 11) {
            Some((parent, e)) => Some((NatSpecKind::Inheritdoc { parent }, e)),
            None => None,
        }
    } else if has_at_pos(cs, p, "@custom:") {
        let e = ident_end_from(cs, p + 8);
        if e > p + 8 {
            Some((NatSpecKind::Custom { tag: string_of(cs, p + 8, e) }, e))
        } else {
            None
        }
    } else {
        None
    }
}

fn kind_or_notice_pos(cs: &Vec<char>, p: usize) -> (r: (NatSpecKind, usize))
    requires
        p <= cs@.len(),
    ensures
        kind_or_notice(cs@, p as int) == (r.0@, r.1 as int),
        p <= r.1 <= cs@.len(),
{
    match kind_at_pos(cs, p) {
        Some(k) => k,
        None => (NatSpecKind::Notice, p),
    }
}

fn single_item_at(cs: &Vec<char>, p: usize) -> (r: Option<(NatSpecItem, usize)>)
    requires
        p <= cs@.len(),
    ensures
        match r {
            Some((item, e)) => single_item(cs@, p as int) == Some((item@, e as int)) && p <= e
                <= cs@.len(),
            None => single_item(cs@, p as int) is None,
        },
{
    let q = skip_spaces_from(cs, p);
    let (kind, r) = kind_or_notice_pos(cs, q);
    let t = skip_spaces_from(cs, r);
    let e = line_end_from(cs, t);
    if e < cs.len() && cs[e] == '\r' && !has_at_pos(cs, e, "\r\n") {
        None
    } else {
        let comment = string_of(cs, t, e);
        Some((NatSpecItem { kind, comment }, e))
    }
}

fn block_item_at(cs: &Vec<char>, p: usize) -> (r: Option<(NatSpecItem, usize)>)
    requires
        p <= cs@.len(),
    ensures
        match r {
            Some((item, e)) => block_item(cs@, p as int) == Some((item@, e as int)) && p <= e
                < cs@.len(),
            None => block_item(cs@, p as int) is None,
        },
{
    let q0 = skip_spaces_from(cs, p);
    let q1 = skip_stars_from(cs, q0);
    let q = skip_spaces_from(cs, q1);
    let (kind, r) = kind_or_notice_pos(cs, q);
    let t = skip_spaces_from(cs, r);
    match terminator_from(cs, t) {
        Some(e) => {
            let comment = string_of(cs, t, e);
            Some((NatSpecItem { kind, comment }, e))
        },
        None => None,
    }
}

/// The view of a vector of items
pub open spec fn items_view(v: Seq<NatSpecItem>) -> Seq<ItemView> {
    v.map_values(|i: NatSpecItem| i@)
}

fn block_items_at(cs: &Vec<char>, p: usize) -> (r: (Vec<NatSpecItem>, usize))
    requires
        p <= cs@.len(),
    ensures
        block_items(cs@, p as int) == (items_view(r.0@), r.1 as int),
        p <= r.1 <= cs@.len(),
{
    let mut items: Vec<NatSpecItem> = Vec::new();
    match block_item_at(cs, p) {
        None => {
            assert(items_view(items@) =~= Seq::<ItemView>::empty());
            (items, p)
        },
        Some((item, p1)) => {
            let ghost first = item@;
            items.push(item);
            let mut pos = p1;
            proof {
                assert(items_view(items@) =~= seq![first]);
            }
            loop
                invariant
                    p <= pos <= cs@.len(),
                    block_items(cs@, p as int).1 == more_block_items(cs@, pos as int).1,
                    block_items(cs@, p as int).0 == items_view(items@) + more_block_items(
                        cs@,
                        pos as int,
                    ).0,
                ensures
                    p <= pos <= cs@.len(),
                    block_items(cs@, p as int) == (items_view(items@), pos as int),
                decreases cs@.len() - pos,
            {
                match line_ending_from(cs, pos) {
                    None => {
                        assert(items_view(items@) + Seq::<ItemView>::empty() =~= items_view(items@));
                        break;
                    },
                    Some(p2) => match block_item_at(cs, p2) {
                        None => {
                            assert(items_view(items@) + Seq::<ItemView>::empty() =~= items_view(
                                items@,
                            ));
                            break;
                        },
                        Some((item, p3)) => {
                            let ghost it = item@;
                            let ghost before = items_view(items@);
                            items.push(item);
                            proof {
                                assert(items_view(items@) =~= before.push(it));
                                assert(before + (seq![it] + more_block_items(cs@, p3 as int).0)
                                    =~= before.push(it) + more_block_items(cs@, p3 as int).0);
                            }
                            pos = p3;
                        },
                    },
                }
            }
            (items, pos)
        },
    }
}

fn block_end_at(cs: &Vec<char>, p: usize) -> (q: usize)
    requires
        p <= cs@.len(),
    ensures
        q == block_end(cs@, p as int),
        p <= q <= cs@.len(),
{
    let p1 = match line_ending_from(cs, p) {
        Some(q) => q,
        None => p,
    };
    let p2 = skip_spaces_from(cs, p1);
    let p3 = skip_stars_from(cs, p2);
    if p3 > p2 && p3 < cs.len() && cs[p3] == '/' {
        p3 + 1
    } else {
        p3
    }
}

/// Parse a single-line doc-comment (`///`) at the start of `input`
///
/// On success, returns the items and the number of characters that the comment takes.
pub fn single_line_comment(input: &str) -> (r: Result<(NatSpec, usize), CommentError>)
    ensures
        match r {
            Ok((natspec, n)) => single_line_comment_spec(input@) == Ok::<
                (Seq<ItemView>, int),
                CommentError,
            >((natspec@, n as int)),
            Err(e) => single_line_comment_spec(input@) == Err::<(Seq<ItemView>, int), CommentError>(
                e,
            ),
        },
{
    let cs = chars_of(input);
    proof {
        reveal_strlit("///");
    }
    if !has_at_pos(&cs, 0, "///") {
        return Err(CommentError::Invalid);
    }
    if cs.len() > 3 && cs[3] == '/' {
        Err(CommentError::Delimiter(Delimiter::SingleLine))
    } else {
        match single_item_at(&cs, 3) {
            None => Err(CommentError::Invalid),
            Some((item, e)) => {
                let end = match line_ending_from(&cs, e) {
                    Some(q) => q,
                    None => e,
                };
                if item.is_empty() {
                    let n = NatSpec { items: Vec::new() };
                    assert(n@ =~= Seq::<ItemView>::empty());
                    Ok((n, end))
                } else {
                    let ghost it = item@;
                    let n = NatSpec { items: vec![item] };
                    assert(n@ =~= seq![it]);
                    Ok((n, end))
                }
            },
        }
    }
}

/// Parse a block doc-comment (`/** ... */`) at the start of `input`
///
/// On success, returns the items and the number of characters that the comment takes.
pub fn multiline_comment(input: &str) -> (r: Result<(NatSpec, usize), CommentError>)
    ensures
        match r {
            Ok((natspec, n)) => multiline_comment_spec(input@) == Ok::<
                (Seq<ItemView>, int),
                CommentError,
            >((natspec@, n as int)),
            Err(e) => multiline_comment_spec(input@) == Err::<(Seq<ItemView>, int), CommentError>(
                e,
            ),
        },
{
    let cs = chars_of(input);
    proof {
        reveal_strlit("/**");
    }
    if !has_at_pos(&cs, 0, "/**") {
        return Err(CommentError::Invalid);
    }
    if cs.len() > 3 && cs[3] == '*' {
        Err(CommentError::Delimiter(Delimiter::Block))
    } else {
        let p = skip_spaces_from(&cs, 3);
        let p1 = match line_ending_from(&cs, p) {
            Some(q) => q,
            None => p,
        };
        let (items, e) = block_items_at(&cs, p1);
        let end = block_end_at(&cs, e);
        let n = NatSpec { items };
        assert(n@ =~= items_view(n.items@));
        Ok((n, end))
    }
}

/// Parse a Solidity doc-comment at the start of `input` to extract the `NatSpec` information
///
/// On success, returns the items and the number of characters that the comment takes; the rest of the input is
/// left alone.
pub fn parse_comment(input: &str) -> (r: Result<(NatSpec, usize), CommentError>)
    ensures
        match r {
            Ok((natspec, n)) => parse_comment_spec(input@) == Ok::<(Seq<ItemView>, int), CommentError>(
                (natspec@, n as int),
            ),
            Err(e) => parse_comment_spec(input@) == Err::<(Seq<ItemView>, int), CommentError>(e),
        },
{
    let cs = chars_of(input);
    proof {
        reveal_strlit("///");
    }
    if has_at_pos(&cs, 0, "///") {
        single_line_comment(input)
    } else {
        multiline_comment(input)
    }
}

/// Parse a `NatSpec` tag (with its name, if it takes one) at the start of `input`
///
/// For `@return`, the name, if present, is not part of the kind: see [`NatSpecItem::populate_return`].
/// Returns the kind and the number of characters that the tag takes.
pub fn natspec_kind(input: &str) -> (r: Option<(NatSpecKind, usize)>)
    ensures
        match r {
            Some((k, e)) => kind_at(input@, 0) == Some((k@, e as int)),
            None => kind_at(input@, 0) is None,
        },
{
    let cs = chars_of(input);
    kind_at_pos(&cs, 0)
}

/// Parse a single line of a block doc-comment at the start of `input`
///
/// Returns the item and the number of characters that it takes (up to the line ending or the end of the block).
pub fn one_multiline_natspec(input: &str) -> (r: Option<(NatSpecItem, usize)>)
    ensures
        match r {
            Some((item, e)) => block_item(input@, 0) == Some((item@, e as int)),
            None => block_item(input@, 0) is None,
        },
{
    let cs = chars_of(input);
    block_item_at(&cs, 0)
}

/// The items of a sequence of doc-comments, each parsed and with its return items named after `rets`, or the
/// position and error of the first comment that does not parse
pub open spec fn docs_natspec(docs: Seq<Seq<char>>, rets: Seq<Identifier>) -> Result<Seq<ItemView>, (int, CommentError)>
    decreases docs.len(),
{
    if docs.len() == 0 {
        Ok(Seq::empty())
    } else {
        match docs_natspec(docs.drop_last(), rets) {
            Err(e) => Err(e),
            Ok(items) => match parse_comment_spec(docs.last()) {
                Err(e) => Err(((docs.len() - 1) as int, e)),
                Ok((its, _)) => Ok(items + its.map_values(|i: ItemView| populate_return_spec(i, rets))),
            },
        }
    }
}

proof fn lemma_docs_err_persists(all: Seq<Seq<char>>, rets: Seq<Identifier>, k: int, m: int)
    requires
        0 <= k <= m <= all.len(),
        docs_natspec(all.take(k), rets) is Err,
    ensures
        docs_natspec(all.take(m), rets) == docs_natspec(all.take(k), rets),
    decreases m - k,
{
    if m > k {
        lemma_docs_err_persists(all, rets, k, m - 1);
        assert(all.take(m).drop_last() =~= all.take(m - 1));
    }
}

/// Parse the doc-comments of a source item and combine their items into a single `NatSpec`
///
/// The return items are named after the returns `rets` (see [`NatSpec::populate_returns`]). Fails with the
/// position and the error of the first comment that does not parse.
pub fn extract_natspec(docs: &[String], rets: &[Identifier]) -> (r: Result<NatSpec, (usize, CommentError)>)
    ensures
        match r {
            Ok(n) => docs_natspec(docs@.map_values(|d: String| d@), rets@) == Ok::<
                Seq<ItemView>,
                (int, CommentError),
            >(n@),
            Err((i, e)) => docs_natspec(docs@.map_values(|d: String| d@), rets@) == Err::<
                Seq<ItemView>,
                (int, CommentError),
            >((i as int, e)),
        },
{
    let ghost all = docs@.map_values(|d: String| d@);
    let mut combined = NatSpec { items: Vec::new() };
    let mut i: usize = 0;
    proof {
        assert(combined@ =~= Seq::<ItemView>::empty());
        assert(all.take(0) =~= Seq::<Seq<char>>::empty());
    }
    while i < docs.len()
        invariant
            i <= docs@.len(),
            all == docs@.map_values(|d: String| d@),
            docs_natspec(all.take(i as int), rets@) == Ok::<Seq<ItemView>, (int, CommentError)>(
                combined@,
            ),
        decreases docs@.len() - i,
    {
        proof {
            assert(all.take(i + 1).drop_last() =~= all.take(i as int));
            assert(all.take(i + 1).last() == docs@[i as int]@);
        }
        match parse_comment(docs[i].as_str()) {
            Err(e) => {
                proof {
                    lemma_docs_err_persists(all, rets@, i + 1, all.len() as int);
                    assert(all.take(all.len() as int) =~= all);
                }
                return Err((i, e));
            },
            Ok((parsed, _)) => {
                let mut parsed = parsed.populate_returns(rets);
                let ghost before = combined@;
                combined.append(&mut parsed);
            },
        }
        i = i + 1;
    }
    proof {
        assert(all.take(i as int) =~= all);
    }
    Ok(combined)
}

} // verus!
