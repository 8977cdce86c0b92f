//! Directory names for domains: an escaping that keeps different names apart
//! and is legal on every platform.

use crate::text::chars_of;
use vstd::prelude::*;
use vstd::utf8::{
    decode_utf8, encode_scalar, encode_utf8, encode_utf8_decode_utf8, is_ascii_chars,
    is_ascii_chars_encode_utf8,
};

verus! {

/// The characters that stand for themselves.
pub open spec fn is_plain(c: char) -> bool {
    ('a' <= c <= 'z') || ('A' <= c <= 'Z') || ('0' <= c <= '9') || c == '.' || c == '_' || c == '-'
}

/// An upper case hexadecimal digit, for a value below sixteen.
pub open spec fn hex_digit(n: nat) -> char {
    if n < 10 {
        ('0' as nat + n) as char
    } else {
        ('A' as nat + n - 10) as char
    }
}

/// One byte as a percent sign and two digits.
pub open spec fn escaped_byte(b: u8) -> Seq<char> {
    seq!['%', hex_digit(b as nat / 16), hex_digit(b as nat % 16)]
}

pub open spec fn escaped_bytes(bytes: Seq<u8>) -> Seq<char>
    decreases bytes.len(),
{
    if bytes.len() == 0 {
        Seq::empty()
    } else {
        escaped_byte(bytes[0]) + escaped_bytes(bytes.drop_first())
    }
}

/// A character, or its UTF-8 bytes where it does not stand for itself.
pub open spec fn escaped_char(c: char) -> Seq<char> {
    if is_plain(c) {
        seq![c]
    } else {
        escaped_bytes(encode_utf8(seq![c]))
    }
}

/// Nothing but dots.
pub open spec fn all_dots(name: Seq<char>) -> bool {
    forall|i: int| 0 <= i < name.len() ==> #[trigger] name[i] == '.'
}

/// How the first character of a name is written. A dot that only dots follow is
/// escaped: some platforms drop it, and a name of dots alone stands for another
/// directory.
pub open spec fn first_escaped(name: Seq<char>) -> Seq<char> {
    if all_dots(name) {
        escaped_bytes(encode_utf8(seq![name[0]]))
    } else {
        escaped_char(name[0])
    }
}

/// The characters of a name, each as it is written.
pub open spec fn escaped_chars(name: Seq<char>) -> Seq<char>
    decreases name.len(),
{
    if name.len() == 0 {
        Seq::empty()
    } else {
        first_escaped(name) + escaped_chars(name.drop_first())
    }
}

/// The directory name for a name. The empty name is a percent sign, which no
/// other name gives.
pub open spec fn escaped(name: Seq<char>) -> Seq<char> {
    if name.len() == 0 {
        seq!['%']
    } else {
        escaped_chars(name)
    }
}

/// The value of a hexadecimal digit.
pub open spec fn hex_value(c: char) -> int {
    if '0' <= c <= '9' {
        c as int - '0' as int
    } else {
        c as int - 'A' as int + 10
    }
}

/// The bytes that an escaped name stands for.
pub open spec fn unescaped(s: Seq<char>) -> Seq<u8>
    decreases s.len(),
{
    if s.len() == 0 {
        Seq::empty()
    } else if s[0] == '%' && s.len() >= 3 {
        seq![(hex_value(s[1]) * 16 + hex_value(s[2])) as u8] + unescaped(s.skip(3))
    } else {
        seq![s[0] as u8] + unescaped(s.skip(1))
    }
}

proof fn lemma_byte_comes_back(b: u8, rest: Seq<char>)
    ensures
        unescaped(escaped_byte(b) + rest) == seq![b] + unescaped(rest),
{
    let s = escaped_byte(b) + rest;
    let hi = b as nat / 16;
    let lo = b as nat % 16;
    assert(s[0] == '%');
    assert(s[1] == hex_digit(hi));
    assert(s[2] == hex_digit(lo));
    assert(hex_value(s[1]) == hi);
    assert(hex_value(s[2]) == lo);
    assert(s.skip(3) == rest);
    assert(hi * 16 + lo == b);
}

proof fn lemma_bytes_come_back(bytes: Seq<u8>, rest: Seq<char>)
    ensures
        unescaped(escaped_bytes(bytes) + rest) == bytes + unescaped(rest),
    decreases bytes.len(),
{
    if bytes.len() == 0 {
        assert(escaped_bytes(bytes) + rest == rest);
        assert(bytes + unescaped(rest) == unescaped(rest));
    } else {
        let tail = escaped_bytes(bytes.drop_first()) + rest;
        assert(escaped_bytes(bytes) + rest == escaped_byte(bytes[0]) + tail);
        lemma_byte_comes_back(bytes[0], tail);
        lemma_bytes_come_back(bytes.drop_first(), rest);
        assert(seq![bytes[0]] + (bytes.drop_first() + unescaped(rest)) == bytes + unescaped(rest));
    }
}

proof fn lemma_first_comes_back(name: Seq<char>, rest: Seq<char>)
    requires
        name.len() > 0,
    ensures
        unescaped(first_escaped(name) + rest) == encode_utf8(seq![name[0]]) + unescaped(rest),
{
    let c = name[0];
    if !all_dots(name) && is_plain(c) {
        let s = first_escaped(name) + rest;
        assert(s[0] == c);
        assert(s.skip(1) == rest);
        assert(is_ascii_chars(seq![c]));
        is_ascii_chars_encode_utf8(seq![c]);
        assert(seq![c][0] == c);
        assert(encode_utf8(seq![c]) == seq![c as u8]);
    } else {
        lemma_bytes_come_back(encode_utf8(seq![c]), rest);
    }
}

proof fn lemma_encode_one(c: char)
    ensures
        encode_utf8(seq![c]) == encode_scalar(c as u32),
{
    assert(seq![c].drop_first() == Seq::<char>::empty());
    assert(encode_utf8(Seq::<char>::empty()) == Seq::<u8>::empty());
    assert(encode_utf8(seq![c]) == encode_scalar(c as u32) + Seq::<u8>::empty());
}

proof fn lemma_chars_come_back(name: Seq<char>)
    ensures
        unescaped(escaped_chars(name)) == encode_utf8(name),
    decreases name.len(),
{
    if name.len() > 0 {
        lemma_chars_come_back(name.drop_first());
        lemma_first_comes_back(name, escaped_chars(name.drop_first()));
        lemma_encode_one(name[0]);
    } else {
        assert(encode_utf8(name) == Seq::<u8>::empty());
    }
}

proof fn lemma_escaped_bytes_shape(bytes: Seq<u8>)
    ensures
        escaped_bytes(bytes).len() == 3 * bytes.len(),
        bytes.len() > 0 ==> escaped_bytes(bytes).last() != '.',
    decreases bytes.len(),
{
    if bytes.len() > 0 {
        lemma_escaped_bytes_shape(bytes.drop_first());
        if bytes.len() == 1 {
            assert(escaped_bytes(bytes).last() == hex_digit(bytes[0] as nat % 16));
        } else {
            assert(escaped_bytes(bytes).last() == escaped_bytes(bytes.drop_first()).last());
        }
    }
}

proof fn lemma_escaped_chars_shape(name: Seq<char>)
    requires
        name.len() > 0,
    ensures
        escaped_chars(name).len() > 0,
        escaped_chars(name) != seq!['%'],
        escaped_chars(name).last() != '.',
    decreases name.len(),
{
    let head = first_escaped(name);
    let tail = escaped_chars(name.drop_first());
    lemma_encode_one(name[0]);
    lemma_escaped_bytes_shape(encode_utf8(seq![name[0]]));
    assert(escaped_chars(name) == head + tail);
    assert(head.len() >= 3 || head[0] != '%');
    assert(escaped_chars(name)[0] == head[0]);
    assert(seq!['%'][0] == '%' && seq!['%'].len() == 1);
    if name.len() == 1 {
        assert(tail == Seq::<char>::empty());
        assert(escaped_chars(name) == head);
        if name[0] == '.' {
            assert(all_dots(name));
        }
    } else {
        lemma_escaped_chars_shape(name.drop_first());
        assert(escaped_chars(name).last() == tail.last());
    }
}

/// The name that a directory name stands for.
pub open spec fn name_of(dir: Seq<char>) -> Seq<char> {
    if dir == seq!['%'] {
        Seq::empty()
    } else {
        decode_utf8(unescaped(dir))
    }
}

/// Escaping is reversible: the name comes back.
pub proof fn escaping_is_reversible(name: Seq<char>)
    ensures
        name_of(escaped(name)) == name,
{
    if name.len() == 0 {
        assert(name == Seq::<char>::empty());
    } else {
        lemma_escaped_chars_shape(name);
        lemma_chars_come_back(name);
        encode_utf8_decode_utf8(name);
    }
}

/// Different names never share a directory.
pub proof fn escaping_keeps_names_apart(a: Seq<char>, b: Seq<char>)
    requires
        escaped(a) == escaped(b),
    ensures
        a == b,
{
    escaping_is_reversible(a);
    escaping_is_reversible(b);
}

/// A character that may stand in a directory name on every platform.
pub open spec fn is_legal(c: char) -> bool {
    is_plain(c) || c == '%'
}

proof fn lemma_bytes_are_legal(bytes: Seq<u8>)
    ensures
        forall|i: int|
            0 <= i < escaped_bytes(bytes).len() ==> is_legal(#[trigger] escaped_bytes(bytes)[i]),
    decreases bytes.len(),
{
    if bytes.len() > 0 {
        lemma_bytes_are_legal(bytes.drop_first());
        let head = escaped_byte(bytes[0]);
        let tail = escaped_bytes(bytes.drop_first());
        assert forall|i: int| 0 <= i < escaped_bytes(bytes).len() implies is_legal(
            #[trigger] escaped_bytes(bytes)[i],
        ) by {
            if i < 3 {
                assert(escaped_bytes(bytes)[i] == head[i]);
            } else {
                assert(escaped_bytes(bytes)[i] == tail[i - 3]);
            }
        }
    }
}

proof fn lemma_chars_are_legal(name: Seq<char>)
    ensures
        forall|i: int|
            0 <= i < escaped_chars(name).len() ==> is_legal(#[trigger] escaped_chars(name)[i]),
    decreases name.len(),
{
    if name.len() > 0 {
        lemma_chars_are_legal(name.drop_first());
        lemma_bytes_are_legal(encode_utf8(seq![name[0]]));
        let head = first_escaped(name);
        let tail = escaped_chars(name.drop_first());
        assert forall|i: int| 0 <= i < escaped_chars(name).len() implies is_legal(
            #[trigger] escaped_chars(name)[i],
        ) by {
            if i < head.len() {
                assert(escaped_chars(name)[i] == head[i]);
            } else {
                assert(escaped_chars(name)[i] == tail[i - head.len()]);
            }
        }
    }
}

/// A directory name holds letters, digits, dots, underscores, hyphens and
/// percent signs only.
pub proof fn escaped_names_are_legal(name: Seq<char>)
    ensures
        forall|i: int| 0 <= i < escaped(name).len() ==> is_legal(#[trigger] escaped(name)[i]),
{
    lemma_chars_are_legal(name);
}

/// Every name gives a directory of its own below the one it is made in: the
/// directory name is never empty, never stands for the directory itself or the
/// one above, and never ends in a dot.
pub proof fn escaped_names_are_single_directories(name: Seq<char>)
    ensures
        escaped(name).len() > 0,
        escaped(name) != seq!['.'],
        escaped(name) != seq!['.', '.'],
        escaped(name).last() != '.',
{
    if name.len() > 0 {
        lemma_escaped_chars_shape(name);
    }
    assert(escaped(name).last() != '.');
    assert(seq!['.'].last() == '.');
    assert(seq!['.', '.'].last() == '.');
}

/// A name that needs no escaping is kept as it is.
pub proof fn safe_names_stay(name: Seq<char>)
    requires
        name.len() > 0,
        name.last() != '.',
        forall|i: int| 0 <= i < name.len() ==> is_plain(#[trigger] name[i]),
    ensures
        escaped(name) == name,
    decreases name.len(),
{
    let rest = name.drop_first();
    assert(!all_dots(name)) by {
        assert(name[name.len() - 1] != '.');
    }
    assert(is_plain(name[0]));
    if rest.len() > 0 {
        assert forall|i: int| 0 <= i < rest.len() implies is_plain(#[trigger] rest[i]) by {
            assert(rest[i] == name[i + 1]);
        }
        safe_names_stay(rest);
    } else {
        assert(escaped_chars(rest) == Seq::<char>::empty());
    }
    assert(escaped(name) == name);
}

proof fn lemma_escaped_bytes_push(bytes: Seq<u8>, b: u8)
    ensures
        escaped_bytes(bytes.push(b)) == escaped_bytes(bytes) + escaped_byte(b),
    decreases bytes.len(),
{
    if bytes.len() == 0 {
        assert(bytes.push(b).drop_first() == Seq::<u8>::empty());
        assert(escaped_bytes(Seq::<u8>::empty()) == Seq::<char>::empty());
        assert(escaped_bytes(bytes.push(b)) == escaped_byte(b) + Seq::<char>::empty());
        assert(escaped_bytes(bytes) + escaped_byte(b) == escaped_byte(b) + Seq::<char>::empty());
    } else {
        lemma_escaped_bytes_push(bytes.drop_first(), b);
        assert(bytes.push(b).drop_first() == bytes.drop_first().push(b));
        assert(bytes.push(b)[0] == bytes[0]);
        assert(escaped_bytes(bytes.push(b)) == escaped_bytes(bytes) + escaped_byte(b));
    }
}

fn hex_char(n: u8) -> (c: char)
    requires
        n < 16,
    ensures
        c == hex_digit(n as nat),
{
    if n < 10 {
        (48u8 + n) as char
    } else {
        (55u8 + n) as char
    }
}

fn push_escaped(out: &mut String, c: char)
    ensures
        final(out)@ == old(out)@ + escaped_bytes(encode_utf8(seq![c])),
{
    let mut one = String::new();
    one.push(c);
    assert(one@ == seq![c]);
    let bytes = one.as_str().as_bytes();
    let ghost all = encode_utf8(seq![c]);
    assert(bytes@ == all);
    let mut i: usize = 0;
    assert(all.take(0) == Seq::<u8>::empty());
    assert(out@ == old(out)@ + escaped_bytes(all.take(0)));
    while i < bytes.len()
        invariant
            i <= bytes@.len(),
            bytes@ == all,
            out@ == old(out)@ + escaped_bytes(all.take(i as int)),
        decreases bytes@.len() - i,
    {
        let b: u8 = bytes[i];
        let ghost before = out@;
        out.push('%');
        out.push(hex_char(b / 16));
        out.push(hex_char(b % 16));
        assert(out@ == before + escaped_byte(b));
        proof {
            lemma_escaped_bytes_push(all.take(i as int), b);
            assert(all.take(i + 1) == all.take(i as int).push(b));
        }
        i = i + 1;
        assert(out@ == old(out)@ + escaped_bytes(all.take(i as int)));
    }
    assert(all.take(i as int) == all);
}

/// Where the dots begin that end a name.
fn without_trailing_dots(chars: &Vec<char>) -> (end: usize)
    ensures
        end <= chars@.len(),
        forall|i: int|
            0 <= i <= chars@.len() ==> (#[trigger] all_dots(chars@.skip(i)) <==> end <= i),
{
    let mut end: usize = chars.len();
    while end > 0 && chars[end - 1] == '.'
        invariant
            end <= chars@.len(),
            forall|j: int| end <= j < chars@.len() ==> #[trigger] chars@[j] == '.',
        decreases end,
    {
        end = end - 1;
    }
    assert forall|i: int| 0 <= i <= chars@.len() implies (#[trigger] all_dots(chars@.skip(i))
        <==> end <= i) by {
        let rest = chars@.skip(i);
        if end <= i {
            assert forall|j: int| 0 <= j < rest.len() implies #[trigger] rest[j] == '.' by {
                assert(rest[j] == chars@[i + j]);
            }
        } else {
            assert(rest[end - 1 - i] == chars@[end - 1]);
        }
    }
    end
}

/// Turns a domain name into something usable as a single directory name on
/// every platform.
pub fn escape_for_directory_name(name: &str) -> (out: String)
    ensures
        out@ == escaped(name@),
{
    let chars = chars_of(name);
    let mut out = String::new();
    if chars.len() == 0 {
        out.push('%');
        assert(out@ == seq!['%']);
        return out;
    }
    let end: usize = without_trailing_dots(&chars);
    let mut i: usize = 0;
    assert(name@.skip(0) == name@);
    assert(out@ + escaped_chars(name@) == escaped_chars(name@));
    while i < chars.len()
        invariant
            i <= chars.len(),
            chars@ == name@,
            forall|k: int|
                0 <= k <= name@.len() ==> (#[trigger] all_dots(name@.skip(k)) <==> end <= k),
            out@ + escaped_chars(name@.skip(i as int)) == escaped_chars(name@),
        decreases chars.len() - i,
    {
        let c: char = chars[i];
        let ghost before = out@;
        let ghost rest = name@.skip(i as int);
        assert(rest[0] == c);
        assert(rest.drop_first() == name@.skip(i + 1));
        assert(all_dots(rest) <==> end <= i);
        if i < end && (('a' <= c && c <= 'z') || ('A' <= c && c <= 'Z') || ('0' <= c && c <= '9')
            || c == '.' || c == '_' || c == '-') {
            out.push(c);
            assert(out@ == before + first_escaped(rest));
        } else {
            push_escaped(&mut out, c);
            assert(out@ == before + first_escaped(rest));
        }
        i = i + 1;
        assert(out@ + escaped_chars(name@.skip(i as int)) == before + (first_escaped(rest)
            + escaped_chars(rest.drop_first())));
    }
    assert(escaped_chars(name@.skip(i as int)) == Seq::<char>::empty());
    assert(out@ == out@ + escaped_chars(name@.skip(i as int)));
    out
}

/// A directory name is made of letters and digits of the English alphabet, dots,
/// underscores, hyphens and percent signs: nothing that any platform takes for
/// the end of a name, a drive or a pattern.
pub proof fn directory_names_are_portable(name: Seq<char>, i: int)
    requires
        0 <= i < escaped(name).len(),
    ensures
        ({
            let c = escaped(name)[i];
            ||| 'a' <= c <= 'z'
            ||| 'A' <= c <= 'Z'
            ||| '0' <= c <= '9'
            ||| c == '.'
            ||| c == '_'
            ||| c == '-'
            ||| c == '%'
        }),
{
    escaped_names_are_legal(name);
    assert(is_legal(escaped(name)[i]));
}

/// A name of English letters, digits, dots, underscores and hyphens that does not
/// end in a dot is its own directory name.
pub proof fn portable_names_stay(name: Seq<char>)
    requires
        name.len() > 0,
        name.last() != '.',
        forall|i: int|
            0 <= i < name.len() ==> ('a' <= #[trigger] name[i] <= 'z') || ('A' <= name[i] <= 'Z')
                || ('0' <= name[i] <= '9') || name[i] == '.' || name[i] == '_' || name[i] == '-',
    ensures
        escaped(name) == name,
{
    safe_names_stay(name);
}

} // verus!
