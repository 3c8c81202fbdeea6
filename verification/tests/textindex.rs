use lintspec::textindex::{compute_indices, Advance, Column, TextIndex};

#[test]
fn test_advance_simple() {
    let chunk: Vec<_> = b"abcdabcdabcdabcdabcdabcdabcdabcd"
        .iter()
        .map(|b| *b as i8)
        .collect();
    let chunk: [i8; 32] = chunk.as_slice().try_into().unwrap();
    let advance = Advance::from(chunk);
    assert_eq!(
        advance,
        Advance {
            bytes: 32,
            lines: 0,
            column: Column::Increment(32)
        }
    );
}

#[test]
fn test_advance_newline() {
    let chunk: Vec<_> = b"abcdabcdabcdabcdabcdabcdabc\nabcd"
        .iter()
        .map(|b| *b as i8)
        .collect();
    let chunk: [i8; 32] = chunk.as_slice().try_into().unwrap();
    let advance = Advance::from(chunk);
    assert_eq!(
        advance,
        Advance {
            bytes: 32,
            lines: 1,
            column: Column::SetTo(4)
        }
    );
}

#[test]
fn test_advance_multiple_newlines() {
    let chunk: Vec<_> = b"abcdabcdabc\nabcdabcdabcdab\r\nabc\r"
        .iter()
        .map(|b| *b as i8)
        .collect();
    let chunk: [i8; 32] = chunk.as_slice().try_into().unwrap();
    let advance = Advance::from(chunk);
    assert_eq!(
        advance,
        Advance {
            bytes: 32,
            lines: 2,
            column: Column::SetTo(3)
        }
    );
}

#[test]
fn test_advance_unicode() {
    let chunk: Vec<_> = "abcdabcdabcdabcdabcdabcdabcd🦀"
        .bytes()
        .map(|b| b as i8)
        .collect();
    let chunk: [i8; 32] = chunk.as_slice().try_into().unwrap();
    let advance = Advance::from(chunk);
    assert_eq!(
        advance,
        Advance {
            bytes: 28,
            lines: 0,
            column: Column::Increment(28)
        }
    );
}

#[test]
fn test_advance_unicode_newlines() {
    let chunk: Vec<_> = "abcdabcdabc\nabcdabcdabc\nabcd🦀"
        .bytes()
        .map(|b| b as i8)
        .collect();
    let chunk: [i8; 32] = chunk.as_slice().try_into().unwrap();
    let advance = Advance::from(chunk);
    assert_eq!(
        advance,
        Advance {
            bytes: 28,
            lines: 2,
            column: Column::SetTo(4)
        }
    );
}

#[test]
fn test_advance_next_offset() {
    let chunk: Vec<_> = b"abcdabcdabcdabcdabcdabcdabcdabcd"
        .iter()
        .map(|b| *b as i8)
        .collect();
    let advance = Advance::scan(chunk.as_slice(), 0, 28);
    assert_eq!(
        advance,
        Advance {
            bytes: 28,
            lines: 0,
            column: Column::Increment(28)
        }
    );
}

#[test]
fn test_advance_next_offset_newline() {
    let chunk: Vec<_> = b"abcdabcdabcdabc\nabcdabcdabc\nabcd"
        .iter()
        .map(|b| *b as i8)
        .collect();
    let advance = Advance::scan(chunk.as_slice(), 0, 28);
    assert_eq!(
        advance,
        Advance {
            bytes: 28,
            lines: 2,
            column: Column::SetTo(0)
        }
    );
}

#[test]
fn test_compute_indices_simple() {
    let source = "hello world";
    let offsets = vec![0, 5, 6, 10]; // h, space, w, d
    let result = compute_indices(source, &offsets);

    assert_eq!(result.len(), 4);
    assert_eq!(result[0], TextIndex::zero());
    assert_eq!(
        result[1],
        TextIndex {
            utf8: 5,
            utf16: 5,
            line: 0,
            column: 5
        }
    );
    assert_eq!(
        result[2],
        TextIndex {
            utf8: 6,
            utf16: 6,
            line: 0,
            column: 6
        }
    );
    assert_eq!(
        result[3],
        TextIndex {
            utf8: 10,
            utf16: 10,
            line: 0,
            column: 10
        }
    );
}

#[test]
fn test_compute_indices_with_newlines() {
    let source = "hello\nworld\ntest";
    let offsets = vec![0, 5, 6, 12, 15]; // h, nl, w, t, t
    let result = compute_indices(source, &offsets);

    assert_eq!(result.len(), 5);
    assert_eq!(
        result[0],
        TextIndex {
            utf8: 0,
            utf16: 0,
            line: 0,
            column: 0
        }
    );
    assert_eq!(
        result[1],
        TextIndex {
            utf8: 5,
            utf16: 5,
            line: 0,
            column: 5
        }
    );
    assert_eq!(
        result[2],
        TextIndex {
            utf8: 6,
            utf16: 6,
            line: 1,
            column: 0
        }
    );
    assert_eq!(
        result[3],
        TextIndex {
            utf8: 12,
            utf16: 12,
            line: 2,
            column: 0
        }
    );
    assert_eq!(
        result[4],
        TextIndex {
            utf8: 15,
            utf16: 15,
            line: 2,
            column: 3
        }
    );
}

#[test]
fn test_compute_indices_with_unicode() {
    let source = "hel🦀lo";
    let offsets = vec![0, 3, 7]; // h, crab, l
    let result = compute_indices(source, &offsets);

    assert_eq!(
        result[0],
        TextIndex {
            utf8: 0,
            utf16: 0,
            line: 0,
            column: 0
        }
    );
    assert_eq!(
        result[1],
        TextIndex {
            utf8: 3,
            utf16: 3,
            line: 0,
            column: 3
        }
    );
    assert_eq!(
        result[2],
        TextIndex {
            utf8: 7,
            utf16: 5,
            line: 0,
            column: 4
        }
    );
}

#[test]
fn test_compute_indices_with_carriage_return() {
    let source = "padding_hello\r\nworld_padding_padding";
    let offsets = vec![8, 13, 14, 16, 36]; // h, \r, \n, o, g (last)
    let result = compute_indices(source, &offsets);

    assert_eq!(
        result[0],
        TextIndex {
            utf8: 8,
            utf16: 8,
            line: 0,
            column: 8
        }
    );
    assert_eq!(
        result[1],
        TextIndex {
            utf8: 13,
            utf16: 13,
            line: 0,
            column: 13
        }
    );
    assert_eq!(
        result[2],
        TextIndex {
            utf8: 14,
            utf16: 14,
            line: 0,
            column: 13 // \r doesn't advance
        }
    );
    assert_eq!(
        result[3],
        TextIndex {
            utf8: 16,
            utf16: 16,
            line: 1,
            column: 1
        }
    );
    assert_eq!(
        result[4],
        TextIndex {
            utf8: 36,
            utf16: 36,
            line: 1,
            column: 21
        }
    );
}

#[test]
fn test_compute_indices_duplicate_offsets() {
    let source = "hello";
    let offsets = vec![0, 0, 2, 2, 4];
    let result = compute_indices(source, &offsets);

    assert_eq!(result.len(), 3); // duplicates should be handled
    assert_eq!(
        result[0],
        TextIndex {
            utf8: 0,
            utf16: 0,
            line: 0,
            column: 0
        }
    );
    assert_eq!(
        result[1],
        TextIndex {
            utf8: 2,
            utf16: 2,
            line: 0,
            column: 2
        }
    );
    assert_eq!(
        result[2],
        TextIndex {
            utf8: 4,
            utf16: 4,
            line: 0,
            column: 4
        }
    );
}

#[test]
fn test_compute_indices_unicode_line_separators() {
    let source = "hello\u{2028}world\u{2029}test";
    // Unicode line separator (\u{2028}) and paragraph separator (\u{2029}) are 3 bytes in UTF-8
    // and 1 code unit in UTF-16
    let offsets = vec![0, 5, 8, 16]; // h, ls, w, t
    let result = compute_indices(source, &offsets);

    assert_eq!(result[0], TextIndex::zero());
    assert_eq!(
        result[1],
        TextIndex {
            utf8: 5,
            utf16: 5,
            line: 0,
            column: 5
        }
    );
    assert_eq!(
        result[2],
        TextIndex {
            utf8: 8,
            utf16: 6,
            line: 1,
            column: 0
        }
    );
    assert_eq!(
        result[3],
        TextIndex {
            utf8: 16,
            utf16: 12,
            line: 2,
            column: 0
        }
    );
}

#[test]
fn ascii_after_unicode_at_end_is_indexed() {
    let source = "éa";
    let result = compute_indices(source, &[3]);
    assert_eq!(
        result,
        vec![TextIndex {
            utf8: 3,
            utf16: 2,
            line: 0,
            column: 2
        }]
    );
    let result = compute_indices("é!", &[0, 2, 3]);
    assert_eq!(result.len(), 3);
    assert_eq!(result[1].utf8, 2);
    assert_eq!(
        result[2],
        TextIndex {
            utf8: 3,
            utf16: 2,
            line: 0,
            column: 2
        }
    );
}

#[test]
fn advance_over_characters() {
    let mut index = TextIndex::zero();
    index.advance('a', Some(&'b'));
    assert_eq!(index, TextIndex { utf8: 1, utf16: 1, line: 0, column: 1 });
    index.advance('\r', Some(&'\n'));
    assert_eq!(index, TextIndex { utf8: 2, utf16: 2, line: 0, column: 1 });
    index.advance('\n', None);
    assert_eq!(index, TextIndex { utf8: 3, utf16: 3, line: 1, column: 0 });
    index.advance('🦀', None);
    assert_eq!(index, TextIndex { utf8: 7, utf16: 5, line: 1, column: 1 });
}

#[test]
fn indices_match_advancing_char_by_char() {
    let source = "a\r\nbé\u{2028}c🦀d\n";
    let chars: Vec<char> = source.chars().collect();
    let mut expected = vec![TextIndex::zero()];
    let mut current = TextIndex::zero();
    for (i, c) in chars.iter().enumerate() {
        current.advance(*c, chars.get(i + 1));
        expected.push(current);
    }
    let mut offsets: Vec<usize> = expected.iter().map(|t| t.utf8).collect();
    offsets.insert(2, offsets[2]);
    let result = compute_indices(source, &offsets);
    assert_eq!(result, expected);
}

#[test]
fn offset_inside_a_character_gets_the_next_boundary() {
    // "é" takes the bytes 1 and 2; the offset 2 falls inside it
    let source = "aéb";
    let result = compute_indices(source, &[0, 2, 3]);
    assert_eq!(result.len(), 2);
    assert_eq!(result[0], TextIndex::zero());
    assert_eq!(
        result[1],
        TextIndex {
            utf8: 3,
            utf16: 2,
            line: 0,
            column: 2
        }
    );
}
