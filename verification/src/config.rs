//! Reading tuning parameters from a list of `(name, value)` pairs, as a parameter file
//! gives them: the last pair with a name wins, and values are decimal integers.
use vstd::prelude::*;
use vstd::string::StrSliceExecFns;
use crate::text::{all_digits, decimal_value, parse_decimal, str_to_chars, str_eq};

verus! {

/// The value of the last pair named `key`, if any.
pub open spec fn config_lookup(cfg: Seq<(String, String)>, key: Seq<char>) -> Option<Seq<char>>
    decreases cfg.len(),
{
    if cfg.len() == 0 {
        None
    } else if cfg.last().0@ == key {
        Some(cfg.last().1@)
    } else {
        config_lookup(cfg.drop_last(), key)
    }
}

/// The digits of an integer text after its sign, if it has one (`-` only where `signed`).
pub open spec fn int_digits(s: Seq<char>, signed: bool) -> Seq<char> {
    if s.len() > 0 && (s[0] == '+' || (signed && s[0] == '-')) { s.drop_first() } else { s }
}

/// Text that `str::parse` reads as an integer: an optional sign and at least one digit.
pub open spec fn is_int_text(s: Seq<char>, signed: bool) -> bool {
    let d = int_digits(s, signed);
    d.len() > 0 && all_digits(d)
}

/// The integer an integer text stands for.
pub open spec fn int_text_value(s: Seq<char>, signed: bool) -> int {
    let v = decimal_value(int_digits(s, signed)) as int;
    if s.len() > 0 && signed && s[0] == '-' { -v } else { v }
}

/// The list has a pair named `key` whose value reads as an integer in `min..=max`.
pub open spec fn has_int(cfg: Seq<(String, String)>, key: Seq<char>, min: int, max: int, signed: bool) -> bool {
    match config_lookup(cfg, key) {
        Some(v) => is_int_text(v, signed) && min <= int_text_value(v, signed) <= max,
        None => false,
    }
}

/// The integer that the pair named `key` gives.
pub open spec fn int_of(cfg: Seq<(String, String)>, key: Seq<char>, signed: bool) -> int {
    int_text_value(config_lookup(cfg, key).unwrap(), signed)
}

/// The value of the last pair named `key`.
fn lookup<'a>(cfg: &'a Vec<(String, String)>, key: &str) -> (r: &'a String)
    requires
        config_lookup(cfg@, key@) is Some,
    ensures
        r@ == config_lookup(cfg@, key@).unwrap(),
{
    let mut i: usize = cfg.len();
    assert(cfg@.subrange(0, i as int) =~= cfg@);
    while i > 0
        invariant
            i <= cfg@.len(),
            config_lookup(cfg@.subrange(0, i as int), key@) == config_lookup(cfg@, key@),
        decreases i,
    {
        let ghost sub = cfg@.subrange(0, i as int);
        assert(sub.drop_last() =~= cfg@.subrange(0, i - 1));
        assert(sub.last() == cfg@[i - 1]);
        if str_eq(cfg[i - 1].0.as_str(), key) {
            return &cfg[i - 1].1;
        }
        i = i - 1;
    }
    assert(cfg@.subrange(0, 0) =~= Seq::<(String, String)>::empty());
    &cfg[0].1
}

/// Reads an integer text whose digits make at most `u64::MAX`.
fn parse_int(s: &str, signed: bool) -> (r: i128)
    requires
        is_int_text(s@, signed),
        decimal_value(int_digits(s@, signed)) <= u64::MAX,
    ensures
        r == int_text_value(s@, signed),
{
    let chars = str_to_chars(s);
    let neg = chars.len() > 0 && signed && chars[0] == '-';
    let skip = chars.len() > 0 && (chars[0] == '+' || (signed && chars[0] == '-'));
    let mut digits: Vec<char> = Vec::new();
    let mut i: usize = if skip { 1 } else { 0 };
    let ghost d = int_digits(s@, signed);
    assert(d =~= s@.subrange(i as int, s@.len() as int));
    while i < chars.len()
        invariant
            chars@ == s@,
            d == s@.subrange((if skip { 1int } else { 0 }), s@.len() as int),
            (if skip { 1int } else { 0 }) <= i <= chars@.len(),
            digits@ == s@.subrange((if skip { 1int } else { 0 }), i as int),
        decreases chars@.len() - i,
    {
        digits.push(chars[i]);
        i = i + 1;
    }
    assert(digits@ =~= d);
    let v = parse_decimal(&digits) as i128;
    if neg { -v } else { v }
}

/// The `i32` of the pair named `key`.
pub fn get_i32(cfg: &Vec<(String, String)>, key: &str) -> (r: i32)
    requires
        has_int(cfg@, key@, i32::MIN as int, i32::MAX as int, true),
    ensures
        r == int_of(cfg@, key@, true),
{
    let v = lookup(cfg, key);
    proof {
        let s = v@;
        let d = int_digits(s, true);
        assert(decimal_value(d) <= u64::MAX) by {
            if s.len() > 0 && s[0] == '-' {
                assert(-(decimal_value(d) as int) >= i32::MIN);
            }
        }
    }
    parse_int(v.as_str(), true) as i32
}

/// The `u8` of the pair named `key`.
pub fn get_u8(cfg: &Vec<(String, String)>, key: &str) -> (r: u8)
    requires
        has_int(cfg@, key@, 0, u8::MAX as int, false),
    ensures
        r == int_of(cfg@, key@, false),
{
    let v = lookup(cfg, key);
    parse_int(v.as_str(), false) as u8
}

/// The `usize` of the pair named `key`.
pub fn get_usize(cfg: &Vec<(String, String)>, key: &str) -> (r: usize)
    requires
        has_int(cfg@, key@, 0, usize::MAX as int, false),
    ensures
        r == int_of(cfg@, key@, false),
{
    let v = lookup(cfg, key);
    parse_int(v.as_str(), false) as usize
}


/// Reads an unsigned integer text (an optional `+` and digits) of at most `u128::MAX`.
pub fn parse_u128(s: &str) -> (r: u128)
    requires
        is_int_text(s@, false),
        int_text_value(s@, false) <= u128::MAX,
    ensures
        r == int_text_value(s@, false),
{
    let n = s.unicode_len();
    let skip = n > 0 && s.get_char(0) == '+';
    let ghost d = int_digits(s@, false);
    let mut i: usize = if skip { 1 } else { 0 };
    let ghost st: int = if skip { 1 } else { 0 };
    assert(d =~= s@.subrange(st, n as int));
    let mut v: u128 = 0;
    assert(s@.subrange(st, st) =~= Seq::<char>::empty());
    while i < n
        invariant
            n == s@.len(),
            d == s@.subrange(st, n as int),
            0 <= st <= i <= n,
            all_digits(d),
            decimal_value(d) <= u128::MAX,
            v == decimal_value(s@.subrange(st, i as int)),
        decreases n - i,
    {
        proof {
            lemma_decimal_prefix_len(d, i - st + 1);
            assert(d.subrange(0, i - st + 1) =~= s@.subrange(st, i + 1));
            assert(s@.subrange(st, i + 1).drop_last() =~= s@.subrange(st, i as int));
            assert(d[i - st] == s@[i as int]);
        }
        let c = s.get_char(i);
        assert(crate::text::is_digit(d[i - st]));
        let dv = (c as u32 - '0' as u32) as u128;
        v = v * 10 + dv;
        i = i + 1;
    }
    assert(s@.subrange(st, n as int) =~= d);
    v
}

proof fn lemma_decimal_prefix_len(s: Seq<char>, i: int)
    requires
        all_digits(s),
        0 <= i <= s.len(),
    ensures
        decimal_value(s.subrange(0, i)) <= decimal_value(s),
    decreases s.len() - i,
{
    if i < s.len() {
        lemma_decimal_prefix_len(s, i + 1);
        let p = s.subrange(0, i + 1);
        assert(p.drop_last() =~= s.subrange(0, i));
        assert(crate::text::is_digit(s[i]));
    } else {
        assert(s.subrange(0, i) =~= s);
    }
}


/// Whether a text is an unsigned integer (an optional `+` and digits) of at most `max`.
pub fn is_uint_text_upto(s: &str, max: u128) -> (r: bool)
    ensures
        r == (is_int_text(s@, false) && int_text_value(s@, false) <= max),
{
    let n = s.unicode_len();
    let skip = n > 0 && s.get_char(0) == '+';
    let ghost d = int_digits(s@, false);
    let mut i: usize = if skip { 1 } else { 0 };
    let ghost st: int = if skip { 1 } else { 0 };
    assert(d =~= s@.subrange(st, n as int));
    if i >= n {
        return false;
    }
    let mut v: u128 = 0;
    assert(s@.subrange(st, st) =~= Seq::<char>::empty());
    while i < n
        invariant
            n == s@.len(),
            d == int_digits(s@, false),
            st == (if n > 0 && s@[0] == '+' { 1int } else { 0 }),
            d == s@.subrange(st, n as int),
            0 <= st <= i <= n,
            st < n,
            all_digits(s@.subrange(st, i as int)),
            v == decimal_value(s@.subrange(st, i as int)),
            v <= max,
        decreases n - i,
    {
        let c = s.get_char(i);
        if c < '0' || c > '9' {
            proof {
                assert(d[i - st] == c);
                assert(!crate::text::is_digit(d[i - st]));
                assert(!all_digits(d));
                assert(!is_int_text(s@, false));
            }
            return false;
        }
        let dv = (c as u32 - '0' as u32) as u128;
        proof {
            assert(s@.subrange(st, i + 1).drop_last() =~= s@.subrange(st, i as int));
            assert(s@.subrange(st, i + 1).last() == c);
            assert forall|k: int| 0 <= k < i + 1 - st implies #[trigger] crate::text::is_digit(s@.subrange(st, i + 1)[k]) by {
                if k < i - st {
                    assert(s@.subrange(st, i + 1)[k] == s@.subrange(st, i as int)[k]);
                }
            }
        }
        if dv > max || v > (max - dv) / 10 {
            proof {
                assert(decimal_value(s@.subrange(st, i + 1)) == v * 10 + dv);
                assert(v * 10 + dv > max) by (nonlinear_arith)
                    requires dv > max || v > (max - dv) / 10, v >= 0, dv >= 0, dv <= 9, dv <= max || dv > max;
                let rest_ok = all_digits(d);
                if rest_ok {
                    lemma_decimal_prefix_len(d, i + 1 - st);
                    assert(d.subrange(0, i + 1 - st) =~= s@.subrange(st, i + 1));
                }
            }
            return false;
        }
        proof {
            assert(v * 10 + dv <= max) by (nonlinear_arith)
                requires v <= (max - dv) / 10, dv <= 9, max >= dv;
        }
        v = v * 10 + dv;
        i = i + 1;
    }
    assert(s@.subrange(st, n as int) =~= d);
    true
}

/// Whether the list has a pair named `key`.
fn has_key(cfg: &Vec<(String, String)>, key: &str) -> (r: bool)
    ensures
        r == config_lookup(cfg@, key@) is Some,
{
    let mut i: usize = cfg.len();
    assert(cfg@.subrange(0, i as int) =~= cfg@);
    while i > 0
        invariant
            i <= cfg@.len(),
            config_lookup(cfg@.subrange(0, i as int), key@) == config_lookup(cfg@, key@),
        decreases i,
    {
        let ghost sub = cfg@.subrange(0, i as int);
        assert(sub.drop_last() =~= cfg@.subrange(0, i - 1));
        assert(sub.last() == cfg@[i - 1]);
        if str_eq(cfg[i - 1].0.as_str(), key) {
            return true;
        }
        i = i - 1;
    }
    assert(cfg@.subrange(0, 0) =~= Seq::<(String, String)>::empty());
    false
}

/// Whether a text is a signed integer (an optional sign and digits) within `i32`.
fn is_i32_text(s: &str) -> (r: bool)
    ensures
        r == (is_int_text(s@, true) && i32::MIN <= int_text_value(s@, true) <= i32::MAX),
{
    let n = s.unicode_len();
    if n > 0 && s.get_char(0) == '-' {
        let tail = s.substring_char(1, n);
        assert(tail@ =~= s@.drop_first());
        if tail.unicode_len() > 0 && tail.get_char(0) == '+' {
            assert(!all_digits(int_digits(s@, true))) by {
                assert(!crate::text::is_digit(int_digits(s@, true)[0]));
            }
            return false;
        }
        assert(int_digits(tail@, false) == tail@);
        is_uint_text_upto(tail, 2147483648)
    } else {
        assert(int_digits(s@, true) == int_digits(s@, false));
        is_uint_text_upto(s, 2147483647)
    }
}

/// Whether the list has a pair named `key` whose value reads as an `i32`.
pub fn has_i32(cfg: &Vec<(String, String)>, key: &str) -> (r: bool)
    ensures
        r == has_int(cfg@, key@, i32::MIN as int, i32::MAX as int, true),
{
    if !has_key(cfg, key) {
        return false;
    }
    let v = lookup(cfg, key);
    is_i32_text(v.as_str())
}

/// Whether the list has a pair named `key` whose value reads as an unsigned integer of
/// at most `max`.
pub fn has_uint(cfg: &Vec<(String, String)>, key: &str, max: u128) -> (r: bool)
    ensures
        r == has_int(cfg@, key@, 0, max as int, false),
{
    if !has_key(cfg, key) {
        return false;
    }
    let v = lookup(cfg, key);
    proof {
        let t = v@;
        if is_int_text(t, false) {
            assert(int_text_value(t, false) >= 0);
        }
    }
    is_uint_text_upto(v.as_str(), max)
}

} // verus!
