//! Form-urlencoding of query and body parameters, over UTF-8 bytes.

use vstd::prelude::*;

use crate::numfmt::string_push;

verus! {

/// The character for a hexadecimal digit, upper case.
pub open spec fn hex_char(d: nat) -> char {
    if d == 0 {
        '0'
    } else if d == 1 {
        '1'
    } else if d == 2 {
        '2'
    } else if d == 3 {
        '3'
    } else if d == 4 {
        '4'
    } else if d == 5 {
        '5'
    } else if d == 6 {
        '6'
    } else if d == 7 {
        '7'
    } else if d == 8 {
        '8'
    } else if d == 9 {
        '9'
    } else if d == 10 {
        'A'
    } else if d == 11 {
        'B'
    } else if d == 12 {
        'C'
    } else if d == 13 {
        'D'
    } else if d == 14 {
        'E'
    } else {
        'F'
    }
}

/// Bytes that a form-urlencoded query keeps as they are: letters, digits,
/// and the marks `*`, `-`, `.`, `_`.
pub open spec fn form_unreserved(b: u8) -> bool {
    (97 <= b && b <= 122)  // a-z
     || (65 <= b && b <= 90)  // A-Z
     || (48 <= b && b <= 57)  // 0-9
     || b == 42 || b == 45 || b == 46 || b == 95
}

/// How one byte appears in a form-urlencoded query: space becomes `+`,
/// unreserved bytes stand as themselves, the rest as `%XX`.
pub open spec fn enc_byte(b: u8) -> Seq<char> {
    if b == 32 {
        seq!['+']
    } else if form_unreserved(b) {
        seq![b as char]
    } else {
        seq!['%', hex_char((b / 16) as nat), hex_char((b % 16) as nat)]
    }
}

/// The form-urlencoded rendering of a byte sequence.
pub open spec fn form_encoded(bs: Seq<u8>) -> Seq<char>
    decreases bs.len(),
{
    if bs.len() == 0 {
        Seq::empty()
    } else {
        enc_byte(bs[0]) + form_encoded(bs.drop_first())
    }
}

/// The form-urlencoded rendering of a string, over its UTF-8 bytes.
pub open spec fn form_encoded_str(s: Seq<char>) -> Seq<char> {
    form_encoded(vstd::utf8::encode_utf8(s))
}

pub proof fn lemma_form_encoded_snoc(bs: Seq<u8>, b: u8)
    ensures
        form_encoded(bs.push(b)) == form_encoded(bs) + enc_byte(b),
    decreases bs.len(),
{
    if bs.len() == 0 {
        assert(bs.push(b)[0] == b);
        assert(bs.push(b).drop_first() =~= Seq::<u8>::empty());
        assert(form_encoded(Seq::<u8>::empty()) =~= Seq::<char>::empty());
        assert(form_encoded(bs.push(b)) =~= enc_byte(b));
        assert(form_encoded(bs.push(b)) =~= form_encoded(bs) + enc_byte(b));
    } else {
        assert(bs.push(b).drop_first() =~= bs.drop_first().push(b));
        lemma_form_encoded_snoc(bs.drop_first(), b);
        assert(form_encoded(bs.push(b)) =~= form_encoded(bs) + enc_byte(b));
    }
}

fn hex_char_exec(d: u8) -> (c: char)
    requires
        d < 16,
    ensures
        c == hex_char(d as nat),
{
    match d {
        0 => '0',
        1 => '1',
        2 => '2',
        3 => '3',
        4 => '4',
        5 => '5',
        6 => '6',
        7 => '7',
        8 => '8',
        9 => '9',
        10 => 'A',
        11 => 'B',
        12 => 'C',
        13 => 'D',
        14 => 'E',
        _ => 'F',
    }
}

fn push_enc_byte(out: &mut String, b: u8)
    ensures
        final(out)@ == old(out)@ + enc_byte(b),
{
    if b == 32 {
        string_push(out, '+');
    } else if (97 <= b && b <= 122) || (65 <= b && b <= 90) || (48 <= b && b <= 57) || b == 42
        || b == 45 || b == 46 || b == 95 {
        string_push(out, b as char);
    } else {
        string_push(out, '%');
        let hi = hex_char_exec(b / 16);
        string_push(out, hi);
        let lo = hex_char_exec(b % 16);
        string_push(out, lo);
        assert(out@ =~= old(out)@ + enc_byte(b));
    }
}

/// Appends the form-urlencoded rendering of `s` to `out`.
pub fn append_form_encoded(out: &mut String, s: &str)
    ensures
        final(out)@ == old(out)@ + form_encoded_str(s@),
{
    let bytes = s.as_bytes();
    let n = bytes.len();
    let mut i: usize = 0;
    while i < n
        invariant
            n == bytes@.len(),
            i <= n,
            out@ == old(out)@ + form_encoded(bytes@.take(i as int)),
        decreases n - i,
    {
        proof {
            lemma_form_encoded_snoc(bytes@.take(i as int), bytes@[i as int]);
            assert(bytes@.take(i as int).push(bytes@[i as int]) =~= bytes@.take(i + 1));
        }
        push_enc_byte(out, bytes[i]);
        i = i + 1;
    }
    proof {
        assert(bytes@.take(n as int) =~= bytes@);
    }
}

} // verus!
