//! Decoding of hexadecimal text into bytes.
//!
//! Test vectors and the format's magic prefix are written as hexadecimal
//! strings, possibly with spaces between groups of digits.  [`from_hex`]
//! skips the spaces, pairs up the remaining digits from the left, and turns
//! each pair into one byte; a trailing unpaired digit is ignored.

use vstd::prelude::*;

verus! {

/// True for the characters that stand for a hexadecimal digit.
pub open spec fn spec_hex_digit(c: char) -> bool {
    (48 <= c as u32 && c as u32 <= 57)  // '0' ..= '9'
    || (97 <= c as u32 && c as u32 <= 102)  // 'a' ..= 'f'
    || (65 <= c as u32 && c as u32 <= 70)  // 'A' ..= 'F'
}

/// The numeric value of a hexadecimal digit.
pub open spec fn spec_hex_value(c: char) -> int {
    if 48 <= c as u32 && c as u32 <= 57 {
        c as u32 - 48
    } else if 97 <= c as u32 && c as u32 <= 102 {
        c as u32 - 97 + 10
    } else {
        c as u32 - 65 + 10
    }
}

/// The characters of `s` that are not spaces, in order.
pub open spec fn spec_strip_spaces(s: Seq<char>) -> Seq<char>
    decreases s.len(),
{
    if s.len() == 0 {
        Seq::empty()
    } else {
        let rest = spec_strip_spaces(s.drop_last());
        if s.last() == ' ' {
            rest
        } else {
            rest.push(s.last())
        }
    }
}

/// The bytes spelled by a sequence of hexadecimal digits, two digits per
/// byte from the left; a trailing unpaired digit yields no byte.
pub open spec fn spec_hex_bytes(s: Seq<char>) -> Seq<u8>
    decreases s.len(),
{
    if s.len() < 2 {
        Seq::empty()
    } else {
        seq![(16 * spec_hex_value(s[0]) + spec_hex_value(s[1])) as u8] + spec_hex_bytes(s.skip(2))
    }
}

/// The bytes spelled by a hexadecimal string once its spaces are removed.
pub open spec fn spec_from_hex(s: Seq<char>) -> Seq<u8> {
    spec_hex_bytes(spec_strip_spaces(s))
}

/// A digit sequence of odd length spells the same bytes as the sequence
/// without its unpaired last digit.
proof fn lemma_hex_bytes_odd(s: Seq<char>)
    requires
        s.len() % 2 == 1,
    ensures
        spec_hex_bytes(s) == spec_hex_bytes(s.drop_last()),
    decreases s.len(),
{
    if s.len() == 1 {
        assert(spec_hex_bytes(s) =~= Seq::<u8>::empty());
        assert(spec_hex_bytes(s.drop_last()) =~= Seq::<u8>::empty());
    } else {
        lemma_hex_bytes_odd(s.skip(2));
        assert(s.skip(2).drop_last() =~= s.drop_last().skip(2));
        assert(s.drop_last().len() >= 2);
        assert(s.drop_last()[0] == s[0] && s.drop_last()[1] == s[1]);
        assert(spec_hex_bytes(s) =~= spec_hex_bytes(s.drop_last()));
    }
}

/// Appending a pair of digits to an evenly paired digit sequence appends
/// the byte that the pair spells.
proof fn lemma_hex_bytes_append_pair(s: Seq<char>, p: char, c: char)
    requires
        s.len() % 2 == 0,
        spec_hex_digit(p),
        spec_hex_digit(c),
    ensures
        spec_hex_bytes(s.push(p).push(c)) == spec_hex_bytes(s).push(
            (16 * spec_hex_value(p) + spec_hex_value(c)) as u8,
        ),
    decreases s.len(),
{
    let b = (16 * spec_hex_value(p) + spec_hex_value(c)) as u8;
    if s.len() == 0 {
        assert(s.push(p).push(c) =~= seq![p, c]);
        assert(seq![p, c].skip(2) =~= Seq::<char>::empty());
        assert(spec_hex_bytes(Seq::<char>::empty()) =~= Seq::<u8>::empty());
        assert(spec_hex_bytes(seq![p, c]) =~= seq![b]);
        assert(spec_hex_bytes(s) =~= Seq::<u8>::empty());
        assert(spec_hex_bytes(s).push(b) =~= seq![b]);
    } else {
        lemma_hex_bytes_append_pair(s.skip(2), p, c);
        assert(s.push(p).push(c).skip(2) =~= s.skip(2).push(p).push(c));
        assert(s.push(p).push(c)[0] == s[0] && s.push(p).push(c)[1] == s[1]);
        assert(spec_hex_bytes(s.push(p).push(c)) =~= spec_hex_bytes(s).push(b));
    }
}

/// Reading one more character of `s` extends the stripped prefix by that
/// character exactly when it is not a space.
proof fn lemma_strip_spaces_step(s: Seq<char>, i: int)
    requires
        0 <= i < s.len(),
    ensures
        spec_strip_spaces(s.take(i + 1)) == if s[i] == ' ' {
            spec_strip_spaces(s.take(i))
        } else {
            spec_strip_spaces(s.take(i)).push(s[i])
        },
{
    assert(s.take(i + 1).drop_last() =~= s.take(i));
    assert(s.take(i + 1).last() == s[i]);
}

/// The numeric value of one hexadecimal digit character.
fn hex_digit_value(c: char) -> (v: u8)
    requires
        spec_hex_digit(c),
    ensures
        v as int == spec_hex_value(c),
        v < 16,
{
    let u: u32 = c as u32;
    if 48 <= u && u <= 57 {
        (u - 48) as u8
    } else if 97 <= u && u <= 102 {
        (u - 97 + 10) as u8
    } else {
        (u - 65 + 10) as u8
    }
}

/// Decodes a hexadecimal string into bytes, ignoring spaces and a trailing
/// unpaired digit.
pub fn from_hex(src: &str) -> (result: Vec<u8>)
    requires
        forall|i: int| 0 <= i < src@.len() ==> src@[i] == ' ' || spec_hex_digit(src@[i]),
    ensures
        result@ == spec_from_hex(src@),
{
    let n: usize = src.unicode_len();
    let mut result: Vec<u8> = Vec::new();
    let mut pending: Option<char> = None;
    let mut i: usize = 0;
    while i < n
        invariant
            n == src@.len(),
            i <= n,
            forall|j: int| 0 <= j < src@.len() ==> src@[j] == ' ' || spec_hex_digit(src@[j]),
            match pending {
                Option::None => {
                    &&& spec_strip_spaces(src@.take(i as int)).len() % 2 == 0
                    &&& result@ == spec_hex_bytes(spec_strip_spaces(src@.take(i as int)))
                },
                Option::Some(p) => {
                    &&& spec_strip_spaces(src@.take(i as int)).len() % 2 == 1
                    &&& spec_strip_spaces(src@.take(i as int)).last() == p
                    &&& spec_hex_digit(p)
                    &&& result@ == spec_hex_bytes(
                        spec_strip_spaces(src@.take(i as int)).drop_last(),
                    )
                },
            },
        decreases n - i,
    {
        let c = src.get_char(i);
        proof {
            lemma_strip_spaces_step(src@, i as int);
        }
        if c == ' ' {
            // a space contributes nothing
        } else {
            match pending {
                Option::None => {
                    proof {
                        let st = spec_strip_spaces(src@.take(i as int));
                        assert(st.push(c).drop_last() =~= st);
                    }
                    pending = Some(c);
                },
                Option::Some(p) => {
                    let b: u8 = 16 * hex_digit_value(p) + hex_digit_value(c);
                    proof {
                        let st = spec_strip_spaces(src@.take(i as int));
                        lemma_hex_bytes_append_pair(st.drop_last(), p, c);
                        assert(st.drop_last().push(p) =~= st);
                        assert(spec_strip_spaces(src@.take(i + 1)) =~= st.drop_last().push(p).push(
                            c,
                        ));
                    }
                    result.push(b);
                    pending = None;
                },
            }
        }
        i = i + 1;
    }
    proof {
        assert(src@.take(n as int) =~= src@);
        if pending is Some {
            lemma_hex_bytes_odd(spec_strip_spaces(src@));
        }
    }
    result
}

} // verus!
