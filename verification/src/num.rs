//! Decimal and hexadecimal rendering and parsing of integers.
use vstd::prelude::*;
use vstd::arithmetic::div_mod::*;
use vstd::arithmetic::power::*;

verus! {

/// The ASCII digit for `d` (`0 <= d < 16`), lower-case for `d >= 10`.
pub open spec fn digit_char(d: int) -> char {
    if d < 10 {
        (('0' as u32) + d) as char
    } else {
        (('a' as u32) + d - 10) as char
    }
}

/// Decimal digits of `n`, most significant first, without leading zeros.
pub open spec fn dec_nat(n: nat) -> Seq<char>
    decreases n,
{
    if n < 10 {
        seq![digit_char(n as int)]
    } else {
        dec_nat(n / 10).push(digit_char((n % 10) as int))
    }
}

/// Decimal rendering of a signed integer (`{}` formatting).
pub open spec fn dec_int(n: int) -> Seq<char> {
    if n < 0 {
        seq!['-'] + dec_nat((-n) as nat)
    } else {
        dec_nat(n as nat)
    }
}

/// The low `k` hexadecimal digits of `n`, zero-padded, most significant first.
pub open spec fn hex_fixed(n: nat, k: nat) -> Seq<char>
    decreases k,
{
    if k == 0 {
        seq![]
    } else {
        hex_fixed(n / 16, (k - 1) as nat).push(digit_char((n % 16) as int))
    }
}

/// The value of a digit character in radices up to 36, or 36 when it is no digit.
pub open spec fn digit_value(c: char) -> int {
    if '0' <= c <= '9' {
        c as int - '0' as int
    } else if 'a' <= c <= 'z' {
        c as int - 'a' as int + 10
    } else if 'A' <= c <= 'Z' {
        c as int - 'A' as int + 10
    } else {
        36
    }
}

pub open spec fn all_digits(s: Seq<char>, radix: int) -> bool {
    forall|i: int| 0 <= i < s.len() ==> #[trigger] digit_value(s[i]) < radix
}

pub open spec fn digits_value(s: Seq<char>, radix: int) -> int
    decreases s.len(),
{
    if s.len() == 0 {
        0
    } else {
        digits_value(s.drop_last(), radix) * radix + digit_value(s.last())
    }
}

/// Unsigned integer parsing as std's `from_str_radix` does it: an optional `+`
/// (not alone), then at least one digit of the radix, and a value up to `max`.
pub open spec fn parse_unsigned(s: Seq<char>, radix: int, max: int) -> Option<int> {
    let d = if s.len() > 1 && s[0] == '+' {
        s.drop_first()
    } else {
        s
    };
    if d.len() > 0 && all_digits(d, radix) && digits_value(d, radix) <= max {
        Some(digits_value(d, radix))
    } else {
        None
    }
}

pub fn digit_to_char(d: u64) -> (c: char)
    requires
        d < 16,
    ensures
        c == digit_char(d as int),
{
    if d < 10 {
        let b = (48 + d) as u8;
        crate::text::char_from_ascii(b)
    } else {
        let b = (97 + d - 10) as u8;
        crate::text::char_from_ascii(b)
    }
}

/// Decimal digits of `n`.
pub fn fmt_u64(n: u64) -> (r: Vec<char>)
    ensures
        r@ == dec_nat(n as nat),
    decreases n,
{
    if n < 10 {
        let c = digit_to_char(n);
        let v = vec![c];
        proof {
            assert(v@ =~= seq![c]);
        }
        v
    } else {
        let mut v = fmt_u64(n / 10);
        v.push(digit_to_char(n % 10));
        v
    }
}

/// Decimal digits of `n`.
pub fn fmt_u128(n: u128) -> (r: Vec<char>)
    ensures
        r@ == dec_nat(n as nat),
    decreases n,
{
    if n < 10 {
        let c = digit_to_char(n as u64);
        let v = vec![c];
        proof {
            assert(v@ =~= seq![c]);
        }
        v
    } else {
        let mut v = fmt_u128(n / 10);
        v.push(digit_to_char((n % 10) as u64));
        v
    }
}

/// Decimal rendering of a signed integer.
pub fn fmt_i64(n: i64) -> (r: Vec<char>)
    ensures
        r@ == dec_int(n as int),
{
    if n < 0 {
        let m: i128 = 0i128 - (n as i128);
        let d = fmt_u64(m as u64);
        let mut r = vec!['-'];
        proof {
            assert(r@ =~= seq!['-']);
        }
        crate::text::append_chars(&mut r, &d);
        r
    } else {
        fmt_u64(n as u64)
    }
}

/// The low `k` hexadecimal digits of `n`, zero-padded.
pub fn fmt_hex(n: u64, k: u64) -> (r: Vec<char>)
    ensures
        r@ == hex_fixed(n as nat, k as nat),
    decreases k,
{
    if k == 0 {
        let v: Vec<char> = Vec::new();
        proof {
            assert(v@ =~= Seq::<char>::empty());
        }
        v
    } else {
        let mut v = fmt_hex(n / 16, k - 1);
        v.push(digit_to_char(n % 16));
        v
    }
}

/// The value of a digit character, or 36 when it is no digit.
pub fn char_digit_value(c: char) -> (r: u32)
    ensures
        r as int == digit_value(c),
{
    if '0' <= c && c <= '9' {
        (c as u32) - ('0' as u32)
    } else if 'a' <= c && c <= 'z' {
        (c as u32) - ('a' as u32) + 10
    } else if 'A' <= c && c <= 'Z' {
        (c as u32) - ('A' as u32) + 10
    } else {
        36
    }
}

proof fn lemma_digits_value_nonneg(s: Seq<char>, radix: int)
    requires
        radix >= 1,
        all_digits(s, radix),
    ensures
        digits_value(s, radix) >= 0,
    decreases s.len(),
{
    if s.len() > 0 {
        assert(all_digits(s.drop_last(), radix)) by {
            assert forall|i: int| 0 <= i < s.drop_last().len() implies #[trigger] digit_value(
                s.drop_last()[i],
            ) < radix by {
                assert(digit_value(s[i]) < radix);
            }
        }
        lemma_digits_value_nonneg(s.drop_last(), radix);
        assert(digit_value(s[s.len() - 1]) < radix);
        assert(digit_value(s.last()) >= 0);
        lemma_mul_nonneg(digits_value(s.drop_last(), radix), radix);
    }
}

/// A number read in a radix of at least 1 is never negative.
pub proof fn lemma_parse_unsigned_nonneg(s: Seq<char>, radix: int, max: int)
    requires
        radix >= 1,
    ensures
        parse_unsigned(s, radix, max) matches Some(v) ==> v >= 0,
{
    let d = if s.len() > 1 && s[0] == '+' {
        s.drop_first()
    } else {
        s
    };
    if d.len() > 0 && all_digits(d, radix) {
        lemma_digits_value_nonneg(d, radix);
    }
}

proof fn lemma_mul_nonneg(a: int, b: int)
    requires
        a >= 0,
        b >= 0,
    ensures
        a * b >= 0,
{
    vstd::arithmetic::mul::lemma_mul_nonnegative(a, b);
}

/// Parses an unsigned integer of the given radix, with the bound `max`.
pub fn parse_unsigned_chars(s: &[char], radix: u32, max: u64) -> (r: Option<u64>)
    requires
        2 <= radix <= 36,
    ensures
        r matches Some(v) ==> parse_unsigned(s@, radix as int, max as int) == Some(v as int),
        r is None ==> parse_unsigned(s@, radix as int, max as int) is None,
{
    let start: usize = if s.len() > 1 && s[0] == '+' {
        1
    } else {
        0
    };
    let ghost d = if s@.len() > 1 && s@[0] == '+' {
        s@.drop_first()
    } else {
        s@
    };
    proof {
        assert(d =~= s@.subrange(start as int, s@.len() as int));
    }
    if start >= s.len() {
        return None;
    }
    let mut acc: u64 = 0;
    let mut over = false;
    let mut i = start;
    while i < s.len()
        invariant
            start <= i <= s@.len(),
            2 <= radix <= 36,
            d == s@.subrange(start as int, s@.len() as int),
            d == (if s@.len() > 1 && s@[0] == '+' { s@.drop_first() } else { s@ }),
            all_digits(s@.subrange(start as int, i as int), radix as int),
            !over ==> acc as int == digits_value(s@.subrange(start as int, i as int), radix as int),
            !over ==> acc <= max,
            over ==> digits_value(s@.subrange(start as int, i as int), radix as int) > max,
        decreases s@.len() - i,
    {
        let dv = char_digit_value(s[i]);
        let ghost pre = s@.subrange(start as int, i as int);
        let ghost nxt = s@.subrange(start as int, i as int + 1);
        proof {
            assert(nxt.drop_last() =~= pre);
            assert(nxt.last() == s@[i as int]);
        }
        if dv >= radix {
            proof {
                assert(d[i - start] == s@[i as int]);
                assert(digit_value(d[i - start]) >= radix);
                assert(!all_digits(d, radix as int));
                assert(d == (if s@.len() > 1 && s@[0] == '+' { s@.drop_first() } else { s@ }));
                assert(parse_unsigned(s@, radix as int, max as int) is None);
            }
            return None;
        }
        proof {
            assert(all_digits(nxt, radix as int)) by {
                assert forall|k: int| 0 <= k < nxt.len() implies #[trigger] digit_value(nxt[k])
                    < radix by {
                    if k < pre.len() {
                        assert(nxt[k] == pre[k]);
                    }
                }
            }
            lemma_digits_value_nonneg(pre, radix as int);
        }
        if !over {
            proof {
                assert((acc as int) * (radix as int) <= 0xffff_ffff_ffff_ffffint * 36) by (nonlinear_arith)
                    requires
                        acc <= 0xffff_ffff_ffff_ffffint,
                        0 <= radix <= 36,
                        acc >= 0,
                ;
            }
            let wide: u128 = (acc as u128) * (radix as u128) + (dv as u128);
            proof {
                assert(digits_value(nxt, radix as int) == acc * radix + dv);
            }
            if wide > max as u128 {
                over = true;
            } else {
                acc = wide as u64;
            }
        } else {
            proof {
                let pv = digits_value(pre, radix as int);
                assert(pv > max);
                assert(pv * radix >= pv) by (nonlinear_arith)
                    requires
                        pv >= 0,
                        radix >= 2,
                ;
            }
        }
        i = i + 1;
    }
    proof {
        assert(s@.subrange(start as int, s@.len() as int) == d);
    }
    if over {
        None
    } else {
        Some(acc)
    }
}

/// `hex_fixed(n, k)` reads back as `n` modulo `16^k`.
pub proof fn lemma_hex_fixed_value(n: nat, k: nat)
    ensures
        hex_fixed(n, k).len() == k,
        all_digits(hex_fixed(n, k), 16),
        digits_value(hex_fixed(n, k), 16) == (n as int) % pow(16, k as nat),
    decreases k,
{
    reveal(pow);
    if k == 0 {
        assert(n % 1 == 0) by {
            lemma_mod_basics_one(n as int);
        }
    } else {
        lemma_hex_fixed_value(n / 16, (k - 1) as nat);
        let h = hex_fixed(n, k);
        let t = hex_fixed(n / 16, (k - 1) as nat);
        assert(h.drop_last() =~= t);
        let dd = (n % 16) as int;
        assert(0 <= dd < 16) by {
            lemma_mod_bound(n as int, 16);
        }
        assert(digit_value(digit_char(dd)) == dd);
        assert(all_digits(h, 16)) by {
            assert forall|i: int| 0 <= i < h.len() implies #[trigger] digit_value(h[i]) < 16 by {
                if i < t.len() {
                    assert(h[i] == t[i]);
                }
            }
        }
        lemma_pow_positive(16, (k - 1) as nat);
        let m = pow(16, (k - 1) as nat);
        assert(pow(16, k) == 16 * m);
        lemma_mod_breakdown(n as int, 16, m);
        assert(digits_value(h, 16) == ((n as int) / 16) % m * 16 + dd);
        assert((n as int) % (16 * m) == 16 * (((n as int) / 16) % m) + (n as int) % 16);
    }
}

proof fn lemma_mod_basics_one(x: int)
    ensures
        x % 1 == 0,
{
    lemma_mod_self_0(1);
    lemma_small_mod(0, 1);
    lemma_fundamental_div_mod(x, 1);
    lemma_mod_bound(x, 1);
}


/// Signed decimal parsing as std's `i64::from_str` does it: an optional sign
/// (not alone), then at least one digit, and a value within `[min, max]`.
pub open spec fn parse_signed(s: Seq<char>, min: int, max: int) -> Option<int> {
    if s.len() > 1 && s[0] == '-' {
        let d = s.drop_first();
        if all_digits(d, 10) && -digits_value(d, 10) >= min {
            Some(-digits_value(d, 10))
        } else {
            None
        }
    } else {
        parse_unsigned(s, 10, max)
    }
}

/// Parses a signed 64-bit decimal integer.
pub fn parse_i64_chars(s: &[char]) -> (r: Option<i64>)
    ensures
        r matches Some(v) ==> parse_signed(s@, i64::MIN as int, i64::MAX as int) == Some(v as int),
        r is None ==> parse_signed(s@, i64::MIN as int, i64::MAX as int) is None,
{
    if s.len() > 1 && s[0] == '-' {
        if s[1] == '+' {
            proof {
                assert(digit_value(s@.drop_first()[0]) >= 10);
            }
            return None;
        }
        let d = crate::text::slice_range(s, 1, s.len());
        proof {
            assert(d@ =~= s@.drop_first());
        }
        match parse_unsigned_chars(&d, 10, 9223372036854775808u64) {
            Some(v) => {
                if v == 9223372036854775808u64 {
                    Some(i64::MIN)
                } else {
                    Some(0i64 - (v as i64))
                }
            },
            None => None,
        }
    } else {
        match parse_unsigned_chars(s, 10, 9223372036854775807u64) {
            Some(v) => Some(v as i64),
            None => None,
        }
    }
}

} // verus!
