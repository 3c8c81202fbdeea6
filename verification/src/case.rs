//! Splitting identifiers into words, and converting them to `snake_case`
use vstd::prelude::*;

use crate::comment::{char_is_whitespace, is_whitespace};
use crate::text::{push_char, push_str};
use crate::textindex::chars_of;

verus! {

/// Whether a character has the Unicode `Uppercase` property (as `char::is_uppercase`)
pub uninterp spec fn is_uppercase(c: char) -> bool;

/// Whether a character has the Unicode `Lowercase` property (as `char::is_lowercase`)
pub uninterp spec fn is_lowercase(c: char) -> bool;

/// The lower case of a text, by the Unicode case mappings (as `str::to_lowercase`)
pub uninterp spec fn lowercase(s: Seq<char>) -> Seq<char>;

/// Whether `c` is upper case, through `char::is_uppercase`
#[verifier::external_body]
fn char_is_uppercase(c: char) -> (b: bool)
    ensures
        b == is_uppercase(c),
{
    c.is_uppercase()
}

/// Whether `c` is lower case, through `char::is_lowercase`
#[verifier::external_body]
fn char_is_lowercase(c: char) -> (b: bool)
    ensures
        b == is_lowercase(c),
{
    c.is_lowercase()
}

/// The lower case of `s`, through `str::to_lowercase`
#[verifier::external_body]
fn str_to_lowercase(s: &str) -> (r: String)
    ensures
        r@ == lowercase(s@),
{
    s.to_lowercase()
}

/// An ASCII decimal digit
pub open spec fn is_ascii_digit(c: char) -> bool {
    '0' <= c && c <= '9'
}

/// A character that separates words: an underscore, a hyphen or whitespace
pub open spec fn is_separator(c: char) -> bool {
    c == '_' || c == '-' || is_whitespace(c)
}

/// An upper case character that starts a new word after `prev`, given the character after it
///
/// A word starts after a lower case letter or a digit (`fooBar`, `foo1Bar`), and at the last upper case
/// letter of a run that a lower case letter follows (`HTTPServer`).
pub open spec fn starts_word(prev: char, next: Option<char>) -> bool {
    ||| is_lowercase(prev)
    ||| is_ascii_digit(prev)
    ||| (is_uppercase(prev) && (next matches Some(n) && is_lowercase(n)))
}

/// The words and the current word after taking the character `c`, followed by `next`
pub open spec fn split_step(words: Seq<Seq<char>>, cur: Seq<char>, c: char, next: Option<char>) -> (
    Seq<Seq<char>>,
    Seq<char>,
) {
    if is_separator(c) {
        (if cur.len() > 0 {
            words.push(cur)
        } else {
            words
        }, Seq::empty())
    } else if is_uppercase(c) && cur.len() > 0 && starts_word(cur.last(), next) {
        (words.push(cur), seq![c])
    } else {
        (words, cur.push(c))
    }
}

/// The words and the current word after taking the characters of `cs` from position `i`
pub open spec fn split_from(cs: Seq<char>, i: int, words: Seq<Seq<char>>, cur: Seq<char>) -> (
    Seq<Seq<char>>,
    Seq<char>,
)
    decreases cs.len() - i,
{
    if 0 <= i < cs.len() {
        let next = if i + 1 < cs.len() {
            Some(cs[i + 1])
        } else {
            None
        };
        let (w, c) = split_step(words, cur, cs[i], next);
        split_from(cs, i + 1, w, c)
    } else {
        (words, cur)
    }
}

/// The words of a text
pub open spec fn words_of(cs: Seq<char>) -> Seq<Seq<char>> {
    let (w, c) = split_from(cs, 0, Seq::empty(), Seq::empty());
    if c.len() > 0 {
        w.push(c)
    } else {
        w
    }
}

/// Words joined with underscores
pub open spec fn join_underscore(ws: Seq<Seq<char>>) -> Seq<char>
    decreases ws.len(),
{
    if ws.len() == 0 {
        Seq::empty()
    } else if ws.len() == 1 {
        ws[0]
    } else {
        join_underscore(ws.drop_last()) + "_"@ + ws.last()
    }
}

/// The view of a vector of strings
pub open spec fn strings_view(v: Seq<String>) -> Seq<Seq<char>> {
    v.map_values(|s: String| s@)
}

/// Splits a string into words based on case and separators
///
/// Words are split at underscores, hyphens and whitespace, and on case boundaries: between a lower case letter
/// or a digit and an upper case letter (`fooBar`), and before the last letter of a run of upper case letters
/// that a lower case letter follows (`HTTPServer`). The words are not empty.
pub fn split_into_words(input: &str) -> (words: Vec<String>)
    ensures
        strings_view(words@) == words_of(input@),
{
    let cs = chars_of(input);
    let mut words: Vec<String> = Vec::new();
    let mut cur = String::new();
    let mut cur_last: char = ' ';
    let mut i: usize = 0;
    proof {
        assert(strings_view(words@) =~= Seq::<Seq<char>>::empty());
    }
    while i < cs.len()
        invariant
            i <= cs@.len(),
            cs@ == input@,
            cur@.len() > 0 ==> cur_last == cur@.last(),
            split_from(cs@, i as int, strings_view(words@), cur@) == split_from(
                cs@,
                0,
                Seq::empty(),
                Seq::empty(),
            ),
        decreases cs@.len() - i,
    {
        let c = cs[i];
        let next = if i + 1 < cs.len() {
            Some(cs[i + 1])
        } else {
            None
        };
        let ghost before_words = strings_view(words@);
        let ghost before_cur = cur@;
        if c == '_' || c == '-' || char_is_whitespace(c) {
            if cur.as_str().is_empty() {
            } else {
                let mut taken = String::new();
                core::mem::swap(&mut taken, &mut cur);
                words.push(taken);
                proof {
                    assert(strings_view(words@) =~= before_words.push(before_cur));
                }
            }
        } else {
            let split = if char_is_uppercase(c) && !cur.as_str().is_empty() {
                let prev = cur_last;
                char_is_lowercase(prev) || ('0' <= prev && prev <= '9') || (char_is_uppercase(prev)
                    && match next {
                    Some(n) => char_is_lowercase(n),
                    None => false,
                })
            } else {
                false
            };
            if split {
                let mut taken = String::new();
                core::mem::swap(&mut taken, &mut cur);
                words.push(taken);
                proof {
                    assert(strings_view(words@) =~= before_words.push(before_cur));
                }
            }
            push_char(&mut cur, c);
            cur_last = c;
            proof {
                if split {
                    assert(cur@ =~= seq![c]);
                }
            }
        }
        proof {
            assert((strings_view(words@), cur@) == split_step(before_words, before_cur, c, next));
        }
        i = i + 1;
    }
    if !cur.as_str().is_empty() {
        let ghost before_words = strings_view(words@);
        words.push(cur);
        proof {
            assert(strings_view(words@) =~= before_words.push(split_from(
                cs@,
                0,
                Seq::empty(),
                Seq::empty(),
            ).1));
        }
    }
    words
}

/// Converts a string to `snake_case`: `FooBar` -> `foo_bar`
///
/// The words are put in lower case and joined with underscores.
pub fn to_snake_case(input: &str) -> (s: String)
    ensures
        s@ == join_underscore(words_of(input@).map_values(|w: Seq<char>| lowercase(w))),
{
    let words = split_into_words(input);
    let ghost ws = words_of(input@);
    let mut s = String::new();
    let mut i: usize = 0;
    while i < words.len()
        invariant
            i <= words@.len(),
            strings_view(words@) == ws,
            s@ == join_underscore(ws.take(i as int).map_values(|w: Seq<char>| lowercase(w))),
        decreases words@.len() - i,
    {
        let lower = str_to_lowercase(words[i].as_str());
        proof {
            assert(words@[i as int]@ == ws[i as int]);
            let prev = ws.take(i as int).map_values(|w: Seq<char>| lowercase(w));
            let now = ws.take(i + 1).map_values(|w: Seq<char>| lowercase(w));
            assert(now.drop_last() =~= prev);
            assert(now.last() == lowercase(ws[i as int]));
        }
        if i > 0 {
            push_str(&mut s, "_");
        }
        push_str(&mut s, lower.as_str());
        proof {
            let now = ws.take(i + 1).map_values(|w: Seq<char>| lowercase(w));
            if i == 0 {
                assert(now.len() == 1);
                assert(s@ =~= now[0]);
            }
        }
        i = i + 1;
    }
    proof {
        assert(ws.take(i as int) =~= ws);
    }
    s
}

} // verus!
