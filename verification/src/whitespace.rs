//! White space around texts.

use vstd::prelude::*;

verus! {

/// Whether a character is white space: it has the Unicode property
/// `White_Space`.
pub open spec fn is_white(c: char) -> bool {
    ||| 0x09 <= c as int <= 0x0D
    ||| c as int == 0x20
    ||| c as int == 0x85
    ||| c as int == 0xA0
    ||| c as int == 0x1680
    ||| 0x2000 <= c as int <= 0x200A
    ||| c as int == 0x2028
    ||| c as int == 0x2029
    ||| c as int == 0x202F
    ||| c as int == 0x205F
    ||| c as int == 0x3000
}

/// A text without the white space at its ends.
pub open spec fn trimmed(text: Seq<char>) -> Seq<char>
    decreases text.len(),
{
    if text.len() == 0 {
        text
    } else if is_white(text.first()) {
        trimmed(text.drop_first())
    } else if is_white(text.last()) {
        trimmed(text.drop_last())
    } else {
        text
    }
}

/// Whether a text is nothing but white space.
pub open spec fn is_blank(text: Seq<char>) -> bool {
    forall|i: int| 0 <= i < text.len() ==> is_white(#[trigger] text[i])
}

/// `str::trim` of the standard library.
///
/// Trusted: it removes the white space at both ends, and white space is what
/// has the Unicode property `White_Space`.
pub assume_specification[ str::trim ](text: &str) -> (rest: &str)
    ensures
        rest@ == trimmed(text@),
;

/// Law: nothing is left of a text after trimming exactly if it is blank.
pub proof fn law_blank_texts_trim_to_nothing(text: Seq<char>)
    ensures
        trimmed(text).len() == 0 <==> is_blank(text),
    decreases text.len(),
{
    if text.len() > 0 {
        if is_white(text.first()) {
            let rest = text.drop_first();
            law_blank_texts_trim_to_nothing(rest);
            if is_blank(rest) {
                assert forall|i: int| 0 <= i < text.len() implies is_white(#[trigger] text[i]) by {
                    if i > 0 {
                        assert(is_white(rest[i - 1]));
                    }
                }
            }
            if is_blank(text) {
                assert forall|i: int| 0 <= i < rest.len() implies is_white(#[trigger] rest[i]) by {
                    assert(is_white(text[i + 1]));
                }
            }
        } else {
            assert(!is_white(text[0]));
            if is_white(text.last()) {
                let rest = text.drop_last();
                law_blank_texts_trim_to_nothing(rest);
                assert(!is_white(rest[0]));
            }
        }
    }
}

/// Law: trimming keeps a part of the text between two parts of white space, and
/// what is kept neither begins nor ends with white space.
pub proof fn law_trimming_keeps_the_middle(text: Seq<char>) -> (ends: (int, int))
    ensures
        0 <= ends.0 <= ends.1 <= text.len(),
        trimmed(text) == text.subrange(ends.0, ends.1),
        forall|i: int| 0 <= i < ends.0 ==> is_white(#[trigger] text[i]),
        forall|i: int| ends.1 <= i < text.len() ==> is_white(#[trigger] text[i]),
        ends.0 < ends.1 ==> !is_white(text[ends.0]) && !is_white(text[ends.1 - 1]),
    decreases text.len(),
{
    if text.len() == 0 {
        assert(trimmed(text) =~= text.subrange(0, 0));
        (0int, 0int)
    } else if is_white(text.first()) {
        let rest = text.drop_first();
        let (start, end) = law_trimming_keeps_the_middle(rest);
        assert(trimmed(text) =~= text.subrange(start + 1, end + 1));
        assert forall|i: int| 0 <= i < start + 1 implies is_white(#[trigger] text[i]) by {
            if i > 0 {
                assert(is_white(rest[i - 1]));
            }
        }
        assert forall|i: int| end + 1 <= i < text.len() implies is_white(#[trigger] text[i]) by {
            assert(is_white(rest[i - 1]));
        }
        (start + 1, end + 1)
    } else if is_white(text.last()) {
        let rest = text.drop_last();
        let (start, end) = law_trimming_keeps_the_middle(rest);
        assert(trimmed(text) =~= text.subrange(start, end));
        assert forall|i: int| 0 <= i < start implies is_white(#[trigger] text[i]) by {
            assert(is_white(rest[i]));
        }
        assert forall|i: int| end <= i < text.len() implies is_white(#[trigger] text[i]) by {
            if i < rest.len() {
                assert(is_white(rest[i]));
            }
        }
        (start, end)
    } else {
        assert(trimmed(text) =~= text.subrange(0, text.len() as int));
        (0, text.len() as int)
    }
}

/// Law: white space is, in ASCII, the tab, the characters from it to the carriage
/// return, and the space, then up to U+1FFF three characters, and from there on
/// the spaces and separators up to U+3000.
pub proof fn law_white_space(c: char)
    ensures
        c as int <= 0x7F ==> (is_white(c) <==> c == '\t' || c == '\n' || c as int == 0x0B
            || c as int == 0x0C || c == '\r' || c == ' '),
        0x80 <= c as int <= 0x1FFF ==> (is_white(c) <==> c as int == 0x85 || c as int == 0xA0
            || c as int == 0x1680),
        0x2000 <= c as int ==> (is_white(c) <==> c as int <= 0x200A || c as int == 0x2028
            || c as int == 0x2029 || c as int == 0x202F || c as int == 0x205F || c as int
            == 0x3000),
{
}

} // verus!
