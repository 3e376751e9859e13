//! Rendering of numbers and addresses as text.
//!
//! Node labels and status messages embed addresses, ports and counts.  The
//! spec functions here define those renderings over character sequences and
//! the executable functions are proved to produce exactly them.

use vstd::prelude::*;
use vstd::string::StringExecFns;
use crate::net::IpAddress;

verus! {

/// The character for one decimal digit.
pub open spec fn dec_digit_char(d: int) -> char {
    if d == 0 {
        '0'
    } else if d == 1 {
        '1'
    } else if d == 2 {
        '2'
    } else if d == 3 {
        '3'
    } else if d == 4 {
        '4'
    } else if d == 5 {
        '5'
    } else if d == 6 {
        '6'
    } else if d == 7 {
        '7'
    } else if d == 8 {
        '8'
    } else {
        '9'
    }
}

/// The decimal rendering of a non-negative number, most significant digit
/// first, with no leading zeros (`0` renders as "0").
pub open spec fn dec_seq(n: int) -> Seq<char>
    recommends
        n >= 0,
    decreases n,
{
    if n < 10 {
        seq![dec_digit_char(n)]
    } else {
        dec_seq(n / 10).push(dec_digit_char(n % 10))
    }
}

/// The character for one hexadecimal digit, lower case.
pub open spec fn hex_digit_char(d: int) -> char {
    if d < 10 {
        dec_digit_char(d)
    } else if d == 10 {
        'a'
    } else if d == 11 {
        'b'
    } else if d == 12 {
        'c'
    } else if d == 13 {
        'd'
    } else if d == 14 {
        'e'
    } else {
        'f'
    }
}

/// The hexadecimal rendering of a non-negative number, lower case, no
/// leading zeros.
pub open spec fn hex_seq(n: int) -> Seq<char>
    recommends
        n >= 0,
    decreases n,
{
    if n < 16 {
        seq![hex_digit_char(n)]
    } else {
        hex_seq(n / 16).push(hex_digit_char(n % 16))
    }
}

fn dec_digit_str(d: u64) -> (r: &'static str)
    requires
        d < 10,
    ensures
        r@ == seq![dec_digit_char(d as int)],
{
    let r: &'static str = if d == 0 {
        "0"
    } else if d == 1 {
        "1"
    } else if d == 2 {
        "2"
    } else if d == 3 {
        "3"
    } else if d == 4 {
        "4"
    } else if d == 5 {
        "5"
    } else if d == 6 {
        "6"
    } else if d == 7 {
        "7"
    } else if d == 8 {
        "8"
    } else {
        "9"
    };
    proof {
        reveal_strlit("0");
        reveal_strlit("1");
        reveal_strlit("2");
        reveal_strlit("3");
        reveal_strlit("4");
        reveal_strlit("5");
        reveal_strlit("6");
        reveal_strlit("7");
        reveal_strlit("8");
        reveal_strlit("9");
        assert(r@ =~= seq![dec_digit_char(d as int)]);
    }
    r
}

fn hex_digit_str(d: u64) -> (r: &'static str)
    requires
        d < 16,
    ensures
        r@ == seq![hex_digit_char(d as int)],
{
    if d < 10 {
        dec_digit_str(d)
    } else {
        let r: &'static str = if d == 10 {
            "a"
        } else if d == 11 {
            "b"
        } else if d == 12 {
            "c"
        } else if d == 13 {
            "d"
        } else if d == 14 {
            "e"
        } else {
            "f"
        };
        proof {
            reveal_strlit("a");
            reveal_strlit("b");
            reveal_strlit("c");
            reveal_strlit("d");
            reveal_strlit("e");
            reveal_strlit("f");
            assert(r@ =~= seq![hex_digit_char(d as int)]);
        }
        r
    }
}

/// The number rendered in decimal.
pub fn u64_to_dec_string(n: u64) -> (r: String)
    ensures
        r@ == dec_seq(n as int),
    decreases n,
{
    if n < 10 {
        String::from_str(dec_digit_str(n))
    } else {
        let mut s = u64_to_dec_string(n / 10);
        s.append(dec_digit_str(n % 10));
        proof {
            assert(s@ =~= dec_seq(n as int));
        }
        s
    }
}

/// The number rendered in hexadecimal, lower case.
pub fn u64_to_hex_string(n: u64) -> (r: String)
    ensures
        r@ == hex_seq(n as int),
    decreases n,
{
    if n < 16 {
        String::from_str(hex_digit_str(n))
    } else {
        let mut s = u64_to_hex_string(n / 16);
        s.append(hex_digit_str(n % 16));
        proof {
            assert(s@ =~= hex_seq(n as int));
        }
        s
    }
}

/// The dotted-quad rendering of an IPv4 address.
pub open spec fn v4_string(bits: u32) -> Seq<char> {
    dec_seq(bits as int / 0x100_0000) + seq!['.'] + dec_seq((bits as int / 0x1_0000) % 256)
        + seq!['.'] + dec_seq((bits as int / 0x100) % 256) + seq!['.'] + dec_seq(bits as int % 256)
}

/// The eight-group rendering of an IPv6 address: each 16-bit group in lower
/// case hexadecimal without leading zeros, groups separated by colons and
/// none of them elided.
pub open spec fn v6_string(bits: u128) -> Seq<char> {
    hex_seq(v6_group(bits, 0)) + seq![':'] + hex_seq(v6_group(bits, 1)) + seq![':'] + hex_seq(
        v6_group(bits, 2),
    ) + seq![':'] + hex_seq(v6_group(bits, 3)) + seq![':'] + hex_seq(v6_group(bits, 4)) + seq![':']
        + hex_seq(v6_group(bits, 5)) + seq![':'] + hex_seq(v6_group(bits, 6)) + seq![':'] + hex_seq(
        v6_group(bits, 7),
    )
}

/// Group `i` (0 is the most significant) of an IPv6 address.
pub open spec fn v6_group(bits: u128, i: int) -> int
    recommends
        0 <= i < 8,
{
    (bits as int / pow16(7 - i)) % 0x1_0000
}

/// 0x10000 raised to `e`.
pub open spec fn pow16(e: int) -> int
    recommends
        e >= 0,
    decreases e,
{
    if e <= 0 {
        1
    } else {
        0x1_0000 * pow16(e - 1)
    }
}

/// The textual rendering of an address, used in node labels and log lines.
pub open spec fn ip_string(ip: IpAddress) -> Seq<char> {
    match ip {
        IpAddress::V4 { bits } => v4_string(bits),
        IpAddress::V6 { bits } => v6_string(bits),
    }
}

fn v4_to_string(bits: u32) -> (r: String)
    ensures
        r@ == v4_string(bits),
{
    let mut s = u64_to_dec_string((bits / 0x100_0000) as u64);
    s.append(".");
    s.append(u64_to_dec_string(((bits / 0x1_0000) % 256) as u64).as_str());
    s.append(".");
    s.append(u64_to_dec_string(((bits / 0x100) % 256) as u64).as_str());
    s.append(".");
    s.append(u64_to_dec_string((bits % 256) as u64).as_str());
    proof {
        reveal_strlit(".");
        assert(s@ =~= v4_string(bits));
    }
    s
}

fn v6_to_string(bits: u128) -> (r: String)
    ensures
        r@ == v6_string(bits),
{
    let mut s = String::new();
    let mut i: u64 = 0;
    while i < 8
        invariant
            i <= 8,
            s@ == v6_prefix(bits, i as int),
        decreases 8 - i,
    {
        if i > 0 {
            s.append(":");
            proof {
                reveal_strlit(":");
            }
        }
        let shift: u128 = (16 * (7 - i)) as u128;
        let masked: u128 = (bits >> shift) & 0xFFFF;
        proof {
            assert((bits >> shift) & 0xFFFF <= 0xFFFF) by (bit_vector);
            lemma_v6_group_shift(bits, i as int);
        }
        let group: u64 = masked as u64;
        s.append(u64_to_hex_string(group).as_str());
        proof {
            assert(s@ =~= v6_prefix(bits, i as int + 1));
        }
        i = i + 1;
    }
    proof {
        reveal_with_fuel(v6_prefix, 9);
        assert(v6_prefix(bits, 8) =~= v6_string(bits));
    }
    s
}

/// The first `k` groups of the IPv6 rendering, with their separators.
pub open spec fn v6_prefix(bits: u128, k: int) -> Seq<char>
    recommends
        0 <= k <= 8,
    decreases k,
{
    if k <= 0 {
        Seq::empty()
    } else if k == 1 {
        hex_seq(v6_group(bits, 0))
    } else {
        v6_prefix(bits, k - 1) + seq![':'] + hex_seq(v6_group(bits, k - 1))
    }
}

proof fn lemma_v6_group_shift(bits: u128, i: int)
    requires
        0 <= i < 8,
    ensures
        ((bits >> (16 * (7 - i)) as u128) & 0xFFFF) as int == v6_group(bits, i),
{
    let s = (16 * (7 - i)) as u128;
    assert(((bits >> s) & 0xFFFF) == (bits >> s) as int % 0x1_0000) by (bit_vector);
    lemma_shift_is_div(bits, s);
    assert(pow16(7 - i) == pow2_int(16 * (7 - i))) by {
        lemma_pow16_pow2(7 - i);
    }
}

/// 2 raised to `e`.
pub open spec fn pow2_int(e: int) -> int
    recommends
        e >= 0,
    decreases e,
{
    if e <= 0 {
        1
    } else {
        2 * pow2_int(e - 1)
    }
}

proof fn lemma_pow16_pow2(e: int)
    requires
        e >= 0,
    ensures
        pow16(e) == pow2_int(16 * e),
    decreases e,
{
    if e > 0 {
        lemma_pow16_pow2(e - 1);
        lemma_pow2_int_add(16, 16 * (e - 1));
        assert(pow2_int(16) == 0x1_0000) by {
            reveal_with_fuel(pow2_int, 17);
        }
    }
}

proof fn lemma_pow2_int_add(a: int, b: int)
    requires
        a >= 0,
        b >= 0,
    ensures
        pow2_int(a + b) == pow2_int(a) * pow2_int(b),
    decreases a,
{
    if a > 0 {
        lemma_pow2_int_add(a - 1, b);
        assert(pow2_int(a + b) == 2 * (pow2_int(a - 1) * pow2_int(b)));
        vstd::arithmetic::mul::lemma_mul_is_associative(2, pow2_int(a - 1), pow2_int(b));
    }
}

proof fn lemma_pow2_int_pos(e: int)
    requires
        e >= 0,
    ensures
        pow2_int(e) >= 1,
    decreases e,
{
    if e > 0 {
        lemma_pow2_int_pos(e - 1);
    }
}

proof fn lemma_shift_is_div(x: u128, s: u128)
    requires
        s < 128,
    ensures
        (x >> s) as int == x as int / pow2_int(s as int),
    decreases s,
{
    if s == 0 {
        assert(x >> 0u128 == x) by (bit_vector);
    } else {
        assert(x >> s == (x >> (s - 1) as u128) / 2) by (bit_vector)
            requires 1 <= s < 128;
        lemma_shift_is_div(x, (s - 1) as u128);
        assert(x as int / pow2_int(s as int - 1) / 2 == x as int / (pow2_int(s as int - 1) * 2)) by {
            lemma_pow2_int_pos(s as int - 1);
            vstd::arithmetic::div_mod::lemma_div_denominator(
                x as int,
                pow2_int(s as int - 1),
                2,
            );
        }
        assert(pow2_int(s as int) == pow2_int(s as int - 1) * 2);
    }
}

/// See [`ip_string`].
pub fn ip_to_string(ip: IpAddress) -> (r: String)
    ensures
        r@ == ip_string(ip),
{
    match ip {
        IpAddress::V4 { bits } => v4_to_string(bits),
        IpAddress::V6 { bits } => v6_to_string(bits),
    }
}

/// The ports rendered in decimal and joined with ", ".
pub open spec fn dec_list_seq(s: Seq<u16>) -> Seq<char>
    decreases s.len(),
{
    if s.len() == 0 {
        Seq::empty()
    } else if s.len() == 1 {
        dec_seq(s[0] as int)
    } else {
        dec_seq(s[0] as int) + seq![',', ' '] + dec_list_seq(s.drop_first())
    }
}

/// See [`dec_list_seq`].
pub fn ports_to_dec_list(v: &Vec<u16>) -> (r: String)
    ensures
        r@ == dec_list_seq(v@),
{
    let r = ports_to_dec_list_from(v, 0);
    proof {
        assert(v@.skip(0) =~= v@);
    }
    r
}

fn ports_to_dec_list_from(v: &Vec<u16>, i: usize) -> (r: String)
    requires
        i <= v.len(),
    ensures
        r@ == dec_list_seq(v@.skip(i as int)),
    decreases v.len() - i,
{
    if i >= v.len() {
        proof {
            assert(v@.skip(i as int) =~= Seq::<u16>::empty());
        }
        String::new()
    } else if i == v.len() - 1 {
        proof {
            assert(v@.skip(i as int) =~= seq![v@[i as int]]);
        }
        u64_to_dec_string(v[i] as u64)
    } else {
        let mut s = u64_to_dec_string(v[i] as u64);
        s.append(", ");
        s.append(ports_to_dec_list_from(v, i + 1).as_str());
        proof {
            reveal_strlit(", ");
            assert(v@.skip(i as int).drop_first() =~= v@.skip(i as int + 1));
            assert(v@.skip(i as int)[0] == v@[i as int]);
            assert(s@ =~= dec_list_seq(v@.skip(i as int)));
        }
        s
    }
}

} // verus!
