//! Percent-encoding of text that is embedded in a URL.

use vstd::prelude::*;
use vstd::string::*;
use vstd::utf8::*;

verus! {

/// The characters that stand for themselves inside a URL component: the
/// ASCII letters and digits, and `-`, `.`, `_`, `~`.
pub open spec fn is_unreserved_char(c: char) -> bool {
    ||| 'A' <= c <= 'Z'
    ||| 'a' <= c <= 'z'
    ||| '0' <= c <= '9'
    ||| c == '-'
    ||| c == '.'
    ||| c == '_'
    ||| c == '~'
}

/// The bytes that stand for themselves inside a URL component: those of the
/// unreserved characters.
pub open spec fn is_unreserved(b: u8) -> bool {
    is_unreserved_char(b as char)
}

/// The characters that an encoded component is made of: the unreserved ones
/// and `%`.
pub open spec fn is_component_char(c: char) -> bool {
    is_unreserved_char(c) || c == '%'
}

/// The upper-case hexadecimal digit for a value below sixteen.
pub open spec fn hex_digit(n: u8) -> char
    recommends
        n < 16,
{
    "0123456789ABCDEF"@[n as int]
}

/// How one byte appears in an encoded component: itself if it is unreserved,
/// otherwise `%` followed by its two hexadecimal digits.
pub open spec fn escaped(b: u8) -> Seq<char> {
    if is_unreserved(b) {
        seq![b as char]
    } else {
        seq!['%', hex_digit(b / 16), hex_digit(b % 16)]
    }
}

/// The bytes of a component, each one escaped, in order.
pub open spec fn percent_encoded(bytes: Seq<u8>) -> Seq<char>
    decreases bytes.len(),
{
    if bytes.len() == 0 {
        Seq::empty()
    } else {
        percent_encoded(bytes.drop_last()) + escaped(bytes.last())
    }
}

/// A text as it appears inside a URL: its UTF-8 bytes, percent-encoded.
pub open spec fn encoded_component(text: Seq<char>) -> Seq<char> {
    percent_encoded(encode_utf8(text))
}

/// `String::push` of the standard library: the string afterwards is the string
/// before with the given character added at its end.
pub assume_specification[ String::push ](s: &mut String, c: char)
    ensures
        final(s)@ == old(s)@.push(c),
;

/// Tells whether a byte stands for itself inside a URL component.
pub fn unreserved(b: u8) -> (r: bool)
    ensures
        r == is_unreserved(b),
{
    let c = b as char;
    ('A' <= c && c <= 'Z') || ('a' <= c && c <= 'z') || ('0' <= c && c <= '9') || c == '-'
        || c == '.' || c == '_' || c == '~'
}

fn hex_char(n: u8) -> (c: char)
    requires
        n < 16,
    ensures
        c == hex_digit(n),
{
    proof {
        lemma_hex_digit(n);
    }
    if n < 10 {
        ('0' as u8 + n) as char
    } else {
        ('A' as u8 + (n - 10)) as char
    }
}

/// Percent-encodes a text for use as one component of a URL, such as a path
/// segment or the value of a query parameter.
pub fn encode_path(pc: &str) -> (out: String)
    ensures
        out@ == encoded_component(pc@),
{
    let bytes = pc.as_bytes();
    let mut out = String::new();
    let mut i: usize = 0;
    while i < bytes.len()
        invariant
            i <= bytes@.len(),
            out@ == percent_encoded(bytes@.take(i as int)),
        decreases bytes@.len() - i,
    {
        let b = bytes[i];
        proof {
            assert(bytes@.take(i + 1).drop_last() == bytes@.take(i as int));
            assert(bytes@.take(i + 1).last() == b);
        }
        if unreserved(b) {
            out.push(b as char);
        } else {
            out.push('%');
            out.push(hex_char(b / 16));
            out.push(hex_char(b % 16));
        }
        i = i + 1;
    }
    proof {
        assert(bytes@.take(i as int) == bytes@);
    }
    out
}

/// Encoding one piece after another gives the encoding of the two together.
pub proof fn lemma_percent_encoded_concat(a: Seq<u8>, b: Seq<u8>)
    ensures
        percent_encoded(a + b) == percent_encoded(a) + percent_encoded(b),
    decreases b.len(),
{
    if b.len() == 0 {
        assert(a + b == a);
    } else {
        lemma_percent_encoded_concat(a, b.drop_last());
        assert((a + b).drop_last() == a + b.drop_last());
        assert((a + b).last() == b.last());
    }
}

/// An encoded component holds unreserved characters and `%` only. So it holds
/// none of the characters that divide a URL: no `/`, `?`, `#`, `&`, `=`, and
/// no space.
pub proof fn lemma_encoded_component_chars(text: Seq<char>)
    ensures
        forall|i: int|
            0 <= i < encoded_component(text).len() ==> is_component_char(
                #[trigger] encoded_component(text)[i],
            ),
{
    lemma_percent_encoded_chars(encode_utf8(text));
}

/// A text of unreserved characters is its own encoding.
pub proof fn lemma_unreserved_text_unchanged(text: Seq<char>)
    requires
        forall|i: int| 0 <= i < text.len() ==> is_unreserved_char(#[trigger] text[i]),
    ensures
        encoded_component(text) == text,
{
    let bytes = encode_utf8(text);
    assert(is_ascii_chars(text));
    is_ascii_chars_encode_utf8(text);
    assert forall|i: int| 0 <= i < bytes.len() implies is_unreserved(#[trigger] bytes[i])
        && bytes[i] as char == text[i] by {
        assert(text[i] as u8 == bytes[i]);
        assert(is_unreserved_char(text[i]));
    }
    lemma_unreserved_bytes_unchanged(bytes);
    assert(percent_encoded(bytes) =~= text);
}

/// Two texts with the same encoding are the same text: the encoding loses
/// nothing.
pub proof fn lemma_encoded_component_injective(a: Seq<char>, b: Seq<char>)
    requires
        encoded_component(a) == encoded_component(b),
    ensures
        a == b,
{
    lemma_percent_encoded_injective(encode_utf8(a), encode_utf8(b));
    encode_utf8_decode_utf8(a);
    encode_utf8_decode_utf8(b);
}

proof fn lemma_hex_digit(n: u8)
    requires
        n < 16,
    ensures
        hex_digit(n) as int == if n < 10 {
            '0' as int + n
        } else {
            'A' as int + n - 10
        },
        is_unreserved_char(hex_digit(n)),
{
    reveal_strlit("0123456789ABCDEF");
}

proof fn lemma_escaped_chars(b: u8)
    ensures
        forall|i: int| 0 <= i < escaped(b).len() ==> is_component_char(#[trigger] escaped(b)[i]),
{
    if !is_unreserved(b) {
        lemma_hex_digit(b / 16);
        lemma_hex_digit(b % 16);
    }
}

proof fn lemma_percent_encoded_chars(bytes: Seq<u8>)
    ensures
        forall|i: int|
            0 <= i < percent_encoded(bytes).len() ==> is_component_char(
                #[trigger] percent_encoded(bytes)[i],
            ),
    decreases bytes.len(),
{
    if bytes.len() > 0 {
        let head = percent_encoded(bytes.drop_last());
        let tail = escaped(bytes.last());
        lemma_percent_encoded_chars(bytes.drop_last());
        lemma_escaped_chars(bytes.last());
        assert forall|i: int| 0 <= i < percent_encoded(bytes).len() implies is_component_char(
            #[trigger] percent_encoded(bytes)[i],
        ) by {
            if i < head.len() {
                assert(percent_encoded(bytes)[i] == head[i]);
            } else {
                assert(percent_encoded(bytes)[i] == tail[i - head.len()]);
            }
        }
    }
}

proof fn lemma_unreserved_bytes_unchanged(bytes: Seq<u8>)
    requires
        forall|i: int| 0 <= i < bytes.len() ==> is_unreserved(#[trigger] bytes[i]),
    ensures
        percent_encoded(bytes).len() == bytes.len(),
        forall|i: int|
            0 <= i < bytes.len() ==> #[trigger] percent_encoded(bytes)[i] == bytes[i] as char,
    decreases bytes.len(),
{
    if bytes.len() > 0 {
        lemma_unreserved_bytes_unchanged(bytes.drop_last());
        assert(is_unreserved(bytes.last()));
    }
}

proof fn lemma_percent_encoded_front(bytes: Seq<u8>)
    requires
        bytes.len() > 0,
    ensures
        percent_encoded(bytes) == escaped(bytes[0]) + percent_encoded(bytes.drop_first()),
{
    let first = seq![bytes[0]];
    assert(first + bytes.drop_first() == bytes);
    lemma_percent_encoded_concat(first, bytes.drop_first());
    assert(percent_encoded(first) == escaped(bytes[0])) by {
        reveal_with_fuel(percent_encoded, 2);
        assert(first.last() == bytes[0]);
        assert(first.drop_last().len() == 0);
    }
}

proof fn lemma_escaped_injective(x: u8, rest_x: Seq<char>, y: u8, rest_y: Seq<char>)
    requires
        escaped(x) + rest_x == escaped(y) + rest_y,
    ensures
        x == y,
        rest_x == rest_y,
{
    let left = escaped(x) + rest_x;
    let right = escaped(y) + rest_y;
    lemma_hex_digit(x / 16);
    lemma_hex_digit(x % 16);
    lemma_hex_digit(y / 16);
    lemma_hex_digit(y % 16);
    assert(left[0] == right[0]);
    if is_unreserved(x) {
        assert(left[0] == x as char);
        assert(is_unreserved(y));
    } else {
        assert(left[0] == '%');
        assert(!is_unreserved(y));
        assert(left[1] == right[1]);
        assert(left[2] == right[2]);
        assert(x / 16 == y / 16);
        assert(x % 16 == y % 16);
    }
    let n: int = escaped(x).len() as int;
    assert(rest_x == left.subrange(n, left.len() as int));
    assert(rest_y == right.subrange(n, right.len() as int));
}

proof fn lemma_percent_encoded_injective(a: Seq<u8>, b: Seq<u8>)
    requires
        percent_encoded(a) == percent_encoded(b),
    ensures
        a == b,
    decreases a.len(),
{
    if a.len() == 0 {
        if b.len() > 0 {
            lemma_percent_encoded_front(b);
            assert(escaped(b[0]).len() > 0);
        }
        assert(a == b);
    } else {
        lemma_percent_encoded_front(a);
        assert(escaped(a[0]).len() > 0);
        if b.len() > 0 {
            lemma_percent_encoded_front(b);
            lemma_escaped_injective(
                a[0],
                percent_encoded(a.drop_first()),
                b[0],
                percent_encoded(b.drop_first()),
            );
            lemma_percent_encoded_injective(a.drop_first(), b.drop_first());
            assert(a == seq![a[0]] + a.drop_first());
            assert(b == seq![b[0]] + b.drop_first());
        }
    }
}

} // verus!
