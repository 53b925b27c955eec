//! Fixed-width lowercase hexadecimal rendering of machine integers, with a
//! proved round trip between rendering and parsing.  Tokens built from these
//! digits are URL-safe and canonical: parsing accepts exactly the strings the
//! renderer produces.
use crate::strutil::push_char;
use vstd::prelude::*;

verus! {

/// 16 to the power `n`.
pub open spec fn pow16(n: nat) -> int
    decreases n,
{
    if n == 0 {
        1
    } else {
        16 * pow16((n - 1) as nat)
    }
}

/// The lowercase hexadecimal digit for a value in `0..16`.
pub open spec fn hex_char_of(v: int) -> char {
    if v == 0 {
        '0'
    } else if v == 1 {
        '1'
    } else if v == 2 {
        '2'
    } else if v == 3 {
        '3'
    } else if v == 4 {
        '4'
    } else if v == 5 {
        '5'
    } else if v == 6 {
        '6'
    } else if v == 7 {
        '7'
    } else if v == 8 {
        '8'
    } else if v == 9 {
        '9'
    } else if v == 10 {
        'a'
    } else if v == 11 {
        'b'
    } else if v == 12 {
        'c'
    } else if v == 13 {
        'd'
    } else if v == 14 {
        'e'
    } else {
        'f'
    }
}

/// Whether `c` is a lowercase hexadecimal digit.
pub open spec fn is_hex_lower(c: char) -> bool {
    (48 <= c as u32 && c as u32 <= 57) || (97 <= c as u32 && c as u32 <= 102)
}

/// The value of a lowercase hexadecimal digit.
pub open spec fn hex_value(c: char) -> int {
    if 48 <= c as u32 && c as u32 <= 57 {
        c as u32 - 48
    } else {
        c as u32 - 87
    }
}

/// The `n`-digit lowercase hexadecimal rendering of `v` (most significant
/// digit first); only the low `n` digits of `v` are rendered.
pub open spec fn hex_seq(v: int, n: nat) -> Seq<char>
    decreases n,
{
    if n == 0 {
        Seq::empty()
    } else {
        hex_seq(v / 16, (n - 1) as nat).push(hex_char_of(v % 16))
    }
}

/// The value of a string of lowercase hexadecimal digits, or `None` if any
/// character is not such a digit.  The empty string parses to 0.
pub open spec fn parse_hex_seq(s: Seq<char>) -> Option<int>
    decreases s.len(),
{
    if s.len() == 0 {
        Some(0int)
    } else {
        match parse_hex_seq(s.drop_last()) {
            Option::None => None,
            Option::Some(hi) => if is_hex_lower(s.last()) {
                Some(hi * 16 + hex_value(s.last()))
            } else {
                None
            },
        }
    }
}

/// Each digit the renderer produces is a lowercase hexadecimal digit whose
/// value is the rendered one.
proof fn lemma_hex_char_value(d: int)
    requires
        0 <= d < 16,
    ensures
        is_hex_lower(hex_char_of(d)),
        hex_value(hex_char_of(d)) == d,
{
}

/// A lowercase hexadecimal digit renders back to itself.
proof fn lemma_hex_char_of_value(c: char)
    requires
        is_hex_lower(c),
    ensures
        0 <= hex_value(c) < 16,
        hex_char_of(hex_value(c)) == c,
{
    vstd::utf8::char_u32_cast(c, c as u32);
}

/// Parsing inverts rendering: the `n`-digit rendering of `v < 16^n` parses
/// back to `v`.
pub proof fn lemma_hex_round_trip(v: int, n: nat)
    requires
        0 <= v < pow16(n),
    ensures
        parse_hex_seq(hex_seq(v, n)) == Some(v),
    decreases n,
{
    if n == 0 {
        assert(hex_seq(v, n) =~= Seq::<char>::empty());
    } else {
        let hi = v / 16;
        let d = v % 16;
        assert(0 <= d < 16 && v == 16 * hi + d) by {
            vstd::arithmetic::div_mod::lemma_fundamental_div_mod(v, 16);
        }
        assert(hi < pow16((n - 1) as nat)) by {
            vstd::arithmetic::div_mod::lemma_fundamental_div_mod(v, 16);
        }
        lemma_hex_round_trip(hi, (n - 1) as nat);
        lemma_hex_char_value(d);
        let s = hex_seq(v, n);
        assert(s.drop_last() =~= hex_seq(hi, (n - 1) as nat));
        assert(s.last() == hex_char_of(d));
    }
}

/// Rendering inverts parsing: a string of `n` hexadecimal digits that parses
/// to `v` is the `n`-digit rendering of `v`, and `v < 16^n`.
pub proof fn lemma_hex_canonical(s: Seq<char>, v: int)
    requires
        parse_hex_seq(s) == Some(v),
    ensures
        0 <= v < pow16(s.len()),
        hex_seq(v, s.len()) == s,
    decreases s.len(),
{
    if s.len() == 0 {
        assert(hex_seq(v, 0) =~= Seq::<char>::empty());
        assert(s =~= hex_seq(v, s.len()));
    } else {
        let hi = parse_hex_seq(s.drop_last()).unwrap();
        let d = hex_value(s.last());
        lemma_hex_canonical(s.drop_last(), hi);
        lemma_hex_char_of_value(s.last());
        assert(v == hi * 16 + d);
        assert(v / 16 == hi && v % 16 == d) by {
            vstd::arithmetic::div_mod::lemma_fundamental_div_mod_converse(v, 16, hi, d);
        }
        assert(hi * 16 <= (pow16((s.len() - 1) as nat) - 1) * 16) by {
            vstd::arithmetic::mul::lemma_mul_inequality(hi, pow16((s.len() - 1) as nat) - 1, 16);
        }
        assert(hex_seq(v, s.len()) =~= s);
    }
}

/// A string that fails to parse still fails with more digits appended.
pub proof fn lemma_parse_none_extends(s: Seq<char>, t: Seq<char>)
    requires
        parse_hex_seq(s) is None,
    ensures
        parse_hex_seq(s + t) is None,
    decreases t.len(),
{
    if t.len() == 0 {
        assert(s + t =~= s);
    } else {
        lemma_parse_none_extends(s, t.drop_last());
        assert((s + t).drop_last() =~= s + t.drop_last());
        assert((s + t).len() > 0);
    }
}

/// The exec counterpart of [`hex_char_of`].
fn hex_char_exec(d: u32) -> (r: char)
    requires
        d < 16,
    ensures
        r == hex_char_of(d as int),
{
    match d {
        0 => '0',
        1 => '1',
        2 => '2',
        3 => '3',
        4 => '4',
        5 => '5',
        6 => '6',
        7 => '7',
        8 => '8',
        9 => '9',
        10 => 'a',
        11 => 'b',
        12 => 'c',
        13 => 'd',
        14 => 'e',
        _ => 'f',
    }
}

/// Appends the `n`-digit lowercase hexadecimal rendering of `v` to `s`.
pub fn push_hex(s: &mut String, v: u32, n: u32)
    ensures
        final(s)@ == old(s)@ + hex_seq(v as int, n as nat),
    decreases n,
{
    if n == 0 {
        assert(final(s)@ =~= old(s)@ + hex_seq(v as int, 0));
    } else {
        push_hex(s, v / 16, n - 1);
        let d = v % 16;
        push_char(s, hex_char_exec(d));
        assert(final(s)@ =~= old(s)@ + hex_seq(v as int, n as nat));
    }
}

/// Parses the `n` characters of `s` starting at `start` as lowercase
/// hexadecimal digits.
pub fn parse_hex_range(s: &str, start: usize, n: usize) -> (r: Option<u32>)
    requires
        start + n <= s@.len(),
        start + n <= usize::MAX,
        n <= 8,
    ensures
        r matches Some(v) ==> parse_hex_seq(s@.subrange(start as int, start + n)) == Some(
            v as int,
        ),
        r is None ==> parse_hex_seq(s@.subrange(start as int, start + n)) is None,
{
    let mut acc: u32 = 0;
    let mut i: usize = 0;
    while i < n
        invariant
            i <= n,
            start + n <= s@.len(),
            start + n <= usize::MAX,
            n <= 8,
            parse_hex_seq(s@.subrange(start as int, start + i)) == Some(acc as int),
            acc < pow16(i as nat),
        decreases n - i,
    {
        let c = s.get_char(start + i);
        let cv = c as u32;
        let d: u32 = if 48 <= cv && cv <= 57 {
            cv - 48
        } else if 97 <= cv && cv <= 102 {
            cv - 87
        } else {
            proof {
                let sub = s@.subrange(start as int, start + i + 1);
                assert(sub.drop_last() =~= s@.subrange(start as int, start + i));
                assert(sub.last() == c);
                assert(parse_hex_seq(sub) is None);
                lemma_parse_none_extends(sub, s@.subrange(start + i + 1, start + n));
                assert(sub + s@.subrange(start + i + 1, start + n) =~= s@.subrange(
                    start as int,
                    start + n,
                ));
            }
            return None;
        };
        proof {
            let sub = s@.subrange(start as int, start + i + 1);
            assert(sub.drop_last() =~= s@.subrange(start as int, start + i));
            assert(sub.last() == c);
            assert(is_hex_lower(c) && hex_value(c) == d);
            assert(parse_hex_seq(sub) == Some(acc as int * 16 + d));
            assert(acc as int * 16 + d < pow16((i + 1) as nat)) by {
                assert(acc as int * 16 <= (pow16(i as nat) - 1) * 16) by {
                    vstd::arithmetic::mul::lemma_mul_inequality(
                        acc as int,
                        pow16(i as nat) - 1,
                        16,
                    );
                }
            }
            assert(pow16(8) == 0x100000000) by {
                reveal_with_fuel(pow16, 9);
            }
            assert(pow16((i + 1) as nat) <= pow16(8)) by {
                lemma_pow16_increases((i + 1) as nat, 8);
            }
        }
        acc = acc * 16 + d;
        i = i + 1;
    }
    proof {
        assert(s@.subrange(start as int, start + n) =~= s@.subrange(start as int, start + i));
    }
    Some(acc)
}

/// `pow16` is monotone in its exponent.
pub proof fn lemma_pow16_increases(a: nat, b: nat)
    requires
        a <= b,
    ensures
        pow16(a) <= pow16(b),
        pow16(a) >= 1,
    decreases b,
{
    if b > 0 {
        if a == b {
            lemma_pow16_increases((a - 1) as nat, (b - 1) as nat);
        } else {
            lemma_pow16_increases(a, (b - 1) as nat);
        }
    }
}

} // verus!
