//! Percent-encoding of the text that is put into a URL.

use vstd::prelude::*;
use vstd::utf8::encode_utf8;
use crate::text::digit_char;

verus! {

/// Whether the byte may stand in a URL component as it is: an ASCII letter, a digit,
/// or one of `-`, `.`, `_` and `~`.
pub open spec fn is_unreserved(b: u8) -> bool {
    ||| 0x41 <= b <= 0x5a
    ||| 0x61 <= b <= 0x7a
    ||| 0x30 <= b <= 0x39
    ||| b == 0x2d
    ||| b == 0x2e
    ||| b == 0x5f
    ||| b == 0x7e
}

/// The upper-case hexadecimal digit for `n`.
pub open spec fn hex_char(n: nat) -> char
    recommends
        n < 16,
{
    if n < 10 {
        digit_char(n)
    } else if n == 10 {
        'A'
    } else if n == 11 {
        'B'
    } else if n == 12 {
        'C'
    } else if n == 13 {
        'D'
    } else if n == 14 {
        'E'
    } else {
        'F'
    }
}

/// How one byte is written: as itself where it is unreserved, else as `%` and its
/// two hexadecimal digits.
pub open spec fn encode_byte(b: u8) -> Seq<char> {
    if is_unreserved(b) {
        seq![b as char]
    } else {
        seq!['%', hex_char((b / 16) as nat), hex_char((b % 16) as nat)]
    }
}

/// The bytes written one after the other, each as `encode_byte` has it.
pub open spec fn percent_encode(bytes: Seq<u8>) -> Seq<char>
    decreases bytes.len(),
{
    if bytes.len() == 0 {
        Seq::empty()
    } else {
        percent_encode(bytes.drop_last()) + encode_byte(bytes.last())
    }
}

/// A text as it stands in a URL: the percent-encoding of its UTF-8 bytes.
pub open spec fn component(text: Seq<char>) -> Seq<char> {
    percent_encode(encode_utf8(text))
}

/// Whether the character is `%` or one that `is_unreserved` lets through.
pub open spec fn is_component_char(c: char) -> bool {
    ||| c == '%'
    ||| ('A' <= c && c <= 'Z')
    ||| ('a' <= c && c <= 'z')
    ||| ('0' <= c && c <= '9')
    ||| c == '-'
    ||| c == '.'
    ||| c == '_'
    ||| c == '~'
}

fn hex(n: u8) -> (c: char)
    requires
        n < 16,
    ensures
        c == hex_char(n as nat),
{
    match n {
        0 => '0',
        1 => '1',
        2 => '2',
        3 => '3',
        4 => '4',
        5 => '5',
        6 => '6',
        7 => '7',
        8 => '8',
        9 => '9',
        10 => 'A',
        11 => 'B',
        12 => 'C',
        13 => 'D',
        14 => 'E',
        _ => 'F',
    }
}

fn unreserved(b: u8) -> (r: bool)
    ensures
        r == is_unreserved(b),
{
    (0x41 <= b && b <= 0x5a) || (0x61 <= b && b <= 0x7a) || (0x30 <= b && b <= 0x39) || b == 0x2d
        || b == 0x2e || b == 0x5f || b == 0x7e
}

fn push_byte(out: &mut String, b: u8)
    ensures
        final(out)@ == old(out)@ + encode_byte(b),
{
    if unreserved(b) {
        out.push(b as char);
        assert(out@ =~= old(out)@ + encode_byte(b));
    } else {
        out.push('%');
        out.push(hex(b / 16));
        out.push(hex(b % 16));
        assert(out@ =~= old(out)@ + encode_byte(b));
    }
}

/// Appends `text` to `out` in the form it has inside a URL.
pub fn push_component(out: &mut String, text: &str)
    ensures
        final(out)@ == old(out)@ + component(text@),
{
    let bytes = text.as_bytes();
    let n = bytes.len();
    let mut i: usize = 0;
    assert(bytes@.subrange(0, 0) =~= Seq::<u8>::empty());
    assert(out@ =~= old(out)@ + percent_encode(bytes@.subrange(0, 0)));
    while i < n
        invariant
            n == bytes@.len(),
            bytes@ == encode_utf8(text@),
            0 <= i <= n,
            out@ == old(out)@ + percent_encode(bytes@.subrange(0, i as int)),
        decreases n - i,
    {
        let ghost before = out@;
        push_byte(out, bytes[i]);
        proof {
            let head = bytes@.subrange(0, i as int);
            let next = bytes@.subrange(0, i + 1);
            assert(next.drop_last() =~= head);
            assert(next.last() == bytes@[i as int]);
            assert(out@ =~= old(out)@ + percent_encode(next));
        }
        i = i + 1;
    }
    assert(bytes@.subrange(0, n as int) =~= bytes@);
}

/// The form that `text` has inside a URL.
pub fn encode_component(text: &str) -> (r: String)
    ensures
        r@ == component(text@),
{
    let mut out = String::new();
    push_component(&mut out, text);
    assert(out@ =~= component(text@));
    out
}

/// Encoding two runs of bytes one after the other is encoding their concatenation.
pub proof fn lemma_percent_encode_concat(a: Seq<u8>, b: Seq<u8>)
    ensures
        percent_encode(a + b) == percent_encode(a) + percent_encode(b),
    decreases b.len(),
{
    if b.len() == 0 {
        assert(a + b =~= a);
        assert(percent_encode(a) + percent_encode(b) =~= percent_encode(a));
    } else {
        lemma_percent_encode_concat(a, b.drop_last());
        assert((a + b).drop_last() =~= a + b.drop_last());
        assert((a + b).last() == b.last());
        assert(percent_encode(a + b) =~= percent_encode(a) + percent_encode(b));
    }
}

/// The UTF-8 bytes of two texts, one after the other, are those of their concatenation.
pub proof fn lemma_encode_utf8_concat(a: Seq<char>, b: Seq<char>)
    ensures
        encode_utf8(a + b) == encode_utf8(a) + encode_utf8(b),
    decreases a.len(),
{
    if a.len() == 0 {
        assert(a + b =~= b);
        assert(encode_utf8(a) + encode_utf8(b) =~= encode_utf8(b));
    } else {
        lemma_encode_utf8_concat(a.drop_first(), b);
        assert((a + b).drop_first() =~= a.drop_first() + b);
        assert((a + b)[0] == a[0]);
        assert(encode_utf8(a + b) =~= encode_utf8(a) + encode_utf8(b));
    }
}

/// A text made of two parts is encoded part by part.
pub proof fn lemma_component_concat(a: Seq<char>, b: Seq<char>)
    ensures
        component(a + b) == component(a) + component(b),
{
    lemma_encode_utf8_concat(a, b);
    lemma_percent_encode_concat(encode_utf8(a), encode_utf8(b));
}

/// An encoded byte is made of `%` and unreserved characters.
pub proof fn lemma_encode_byte_chars(b: u8)
    ensures
        forall|i: int| 0 <= i < encode_byte(b).len() ==> is_component_char(#[trigger] encode_byte(b)[i]),
{
    if is_unreserved(b) {
        assert(is_component_char(b as char));
    } else {
        assert(is_component_char(hex_char((b / 16) as nat)));
        assert(is_component_char(hex_char((b % 16) as nat)));
    }
}

/// Encoded text is made of `%` and unreserved characters: nothing in it can close a path
/// segment, open a query or part two of its items.
pub proof fn lemma_percent_encode_chars(bytes: Seq<u8>)
    ensures
        forall|i: int| 0 <= i < percent_encode(bytes).len() ==> is_component_char(#[trigger] percent_encode(bytes)[i]),
    decreases bytes.len(),
{
    if bytes.len() > 0 {
        lemma_percent_encode_chars(bytes.drop_last());
        lemma_encode_byte_chars(bytes.last());
        let head = percent_encode(bytes.drop_last());
        let tail = encode_byte(bytes.last());
        assert forall|i: int| 0 <= i < percent_encode(bytes).len() implies is_component_char(
            #[trigger] percent_encode(bytes)[i],
        ) by {
            if i < head.len() {
                assert(percent_encode(bytes)[i] == head[i]);
            } else {
                assert(percent_encode(bytes)[i] == tail[i - head.len()]);
            }
        }
    }
}

/// Whether the character is one that stands in a URL component as it is.
pub open spec fn is_unreserved_char(c: char) -> bool {
    ||| ('A' <= c && c <= 'Z')
    ||| ('a' <= c && c <= 'z')
    ||| ('0' <= c && c <= '9')
    ||| c == '-'
    ||| c == '.'
    ||| c == '_'
    ||| c == '~'
}

/// Unreserved bytes are written as the characters that they are.
pub proof fn lemma_percent_encode_unreserved(bytes: Seq<u8>)
    requires
        forall|i: int| 0 <= i < bytes.len() ==> is_unreserved(#[trigger] bytes[i]),
    ensures
        percent_encode(bytes) == Seq::new(bytes.len(), |i: int| bytes[i] as char),
    decreases bytes.len(),
{
    if bytes.len() == 0 {
        assert(percent_encode(bytes) =~= Seq::new(bytes.len(), |i: int| bytes[i] as char));
    } else {
        let head = bytes.drop_last();
        assert forall|i: int| 0 <= i < head.len() implies is_unreserved(#[trigger] head[i]) by {
            assert(head[i] == bytes[i]);
        }
        lemma_percent_encode_unreserved(head);
        assert(is_unreserved(bytes[bytes.len() - 1]));
        assert(percent_encode(bytes) =~= Seq::new(bytes.len(), |i: int| bytes[i] as char));
    }
}

/// Text made of unreserved characters stands in a URL as it is.
pub proof fn lemma_component_of_unreserved(text: Seq<char>)
    requires
        forall|i: int| 0 <= i < text.len() ==> is_unreserved_char(#[trigger] text[i]),
    ensures
        component(text) == text,
{
    assert(vstd::utf8::is_ascii_chars(text)) by {
        assert forall|i: int| 0 <= i < text.len() implies '\0' <= #[trigger] text[i] <= '\u{7f}' by {
            assert(is_unreserved_char(text[i]));
        }
    }
    vstd::utf8::is_ascii_chars_encode_utf8(text);
    let bytes = encode_utf8(text);
    assert forall|i: int| 0 <= i < bytes.len() implies is_unreserved(#[trigger] bytes[i]) by {
        assert(is_unreserved_char(text[i]));
        assert(bytes[i] == text[i] as u8);
    }
    lemma_percent_encode_unreserved(bytes);
    assert forall|i: int| 0 <= i < bytes.len() implies bytes[i] as char == text[i] by {
        assert(is_unreserved_char(text[i]));
        assert(bytes[i] == text[i] as u8);
    }
    assert(component(text) =~= text);
}

} // verus!
