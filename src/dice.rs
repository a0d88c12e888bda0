//! Dice notation `NdS`, `NdS+M` and `NdS-M`: N dice (1 when left out) of S sides,
//! plus or minus a modifier M. Surrounding ASCII whitespace is ignored and letters
//! may be upper or lower case.
use vstd::prelude::*;
use vstd::string::StringSliceAdditionalSpecFns;

verus! {

/// An ASCII whitespace byte: tab, line feed, vertical tab, form feed, carriage return
/// or space.
pub open spec fn is_space(b: u8) -> bool {
    (9 <= b && b <= 13) || b == 32
}

/// A decimal digit.
pub open spec fn is_digit(b: u8) -> bool {
    48 <= b && b <= 57
}

/// Every byte is a decimal digit.
pub open spec fn all_digits(s: Seq<u8>) -> bool {
    forall|i: int| 0 <= i < s.len() ==> is_digit(#[trigger] s[i])
}

/// The decimal value of a string of digits.
pub open spec fn digits_value(s: Seq<u8>) -> int
    decreases s.len(),
{
    if s.len() == 0 {
        0
    } else {
        digits_value(s.drop_last()) * 10 + (s.last() - 48)
    }
}

/// What `u32::from_str` accepts: an optional `+`, then one or more digits whose value
/// fits.
pub open spec fn parse_u32_spec(s: Seq<u8>) -> Option<u32> {
    let d = if s.len() > 0 && s[0] == 43 {
        s.subrange(1, s.len() as int)
    } else {
        s
    };
    if d.len() > 0 && all_digits(d) && digits_value(d) <= u32::MAX {
        Some(digits_value(d) as u32)
    } else {
        None
    }
}

/// What `i32::from_str` accepts: an optional `+` or `-`, then one or more digits whose
/// signed value fits.
pub open spec fn parse_i32_spec(s: Seq<u8>) -> Option<i32> {
    if s.len() > 0 && s[0] == 45 {
        let d = s.subrange(1, s.len() as int);
        if d.len() > 0 && all_digits(d) && digits_value(d) <= 0x8000_0000 {
            Some((-digits_value(d)) as i32)
        } else {
            None
        }
    } else {
        let d = if s.len() > 0 && s[0] == 43 {
            s.subrange(1, s.len() as int)
        } else {
            s
        };
        if d.len() > 0 && all_digits(d) && digits_value(d) <= i32::MAX {
            Some(digits_value(d) as i32)
        } else {
            None
        }
    }
}

/// `i` is where `b` first occurs in `s`.
pub open spec fn first_at(s: Seq<u8>, b: u8, i: int) -> bool {
    0 <= i < s.len() && s[i] == b && forall|j: int| 0 <= j < i ==> s[j] != b
}

/// Where `b` first occurs in `s`, if it does.
pub open spec fn find_spec(s: Seq<u8>, b: u8) -> Option<int> {
    if exists|i: int| first_at(s, b, i) {
        Some(choose|i: int| first_at(s, b, i))
    } else {
        None
    }
}

/// `i` is the number of leading whitespace bytes of `s`.
pub open spec fn lead_at(s: Seq<u8>, i: int) -> bool {
    0 <= i <= s.len() && (forall|j: int| 0 <= j < i ==> is_space(#[trigger] s[j])) && (i == s.len()
        || !is_space(s[i]))
}

/// `e` ends `s` once its trailing whitespace (after `start`) is dropped.
pub open spec fn trail_at(s: Seq<u8>, start: int, e: int) -> bool {
    start <= e <= s.len() && (forall|j: int| e <= j < s.len() ==> is_space(#[trigger] s[j])) && (e
        == start || !is_space(s[e - 1]))
}

/// `s` without leading and trailing ASCII whitespace.
pub open spec fn trim_spec(s: Seq<u8>) -> Seq<u8> {
    let a = choose|i: int| lead_at(s, i);
    let e = choose|e: int| trail_at(s, a, e);
    s.subrange(a, e)
}

/// ASCII upper-case letters turned to lower case.
pub open spec fn lower_spec(s: Seq<u8>) -> Seq<u8> {
    s.map_values(|b: u8| if 65 <= b && b <= 90 { (b + 32) as u8 } else { b })
}

/// The modifier after the sides: `+M`, `-M`, or none (0), with the first `+` taking
/// precedence; the sides are what comes before it.
pub open spec fn split_modifier(rest: Seq<u8>) -> (Seq<u8>, Option<i32>) {
    match find_spec(rest, 43) {
        Some(p) => (rest.subrange(0, p), parse_i32_spec(rest.subrange(p + 1, rest.len() as int))),
        None => match find_spec(rest, 45) {
            Some(m) => (
                rest.subrange(0, m),
                match parse_i32_spec(rest.subrange(m + 1, rest.len() as int)) {
                    Some(v) => if v == i32::MIN {
                        None
                    } else {
                        Some((-v) as i32)
                    },
                    None => None,
                },
            ),
            None => (rest, Some(0i32)),
        },
    }
}

/// The meaning of a dice notation, as `(dice, sides, modifier)`, or `None` when it is
/// not well formed: no `d`, a count, sides or modifier that is not a number in range,
/// or fewer than one side.
pub open spec fn dice_spec(raw: Seq<u8>) -> Option<(u32, i32, i32)> {
    let n = lower_spec(trim_spec(raw));
    match find_spec(n, 100) {
        None => None,
        Some(dp) => {
            let num_s = n.subrange(0, dp);
            let num = if num_s.len() == 0 {
                Some(1u32)
            } else {
                parse_u32_spec(num_s)
            };
            let (sides_s, modifier) = split_modifier(n.subrange(dp + 1, n.len() as int));
            let sides = parse_i32_spec(sides_s);
            if num.is_some() && modifier.is_some() && sides.is_some() && sides.unwrap() >= 1 {
                Some((num.unwrap(), sides.unwrap(), modifier.unwrap()))
            } else {
                None
            }
        },
    }
}

proof fn lemma_digits_prefix(s: Seq<u8>, k: int)
    requires
        all_digits(s),
        0 <= k <= s.len(),
    ensures
        0 <= digits_value(s.subrange(0, k)) <= digits_value(s),
    decreases s.len(),
{
    if k == s.len() {
        assert(s.subrange(0, k) == s);
        lemma_digits_nonneg(s);
    } else {
        let t = s.drop_last();
        assert(all_digits(t));
        lemma_digits_prefix(t, k);
        assert(t.subrange(0, k) == s.subrange(0, k));
        lemma_digits_nonneg(t);
    }
}

proof fn lemma_digits_nonneg(s: Seq<u8>)
    requires
        all_digits(s),
    ensures
        digits_value(s) >= 0,
    decreases s.len(),
{
    if s.len() > 0 {
        assert(all_digits(s.drop_last()));
        lemma_digits_nonneg(s.drop_last());
    }
}

/// The bytes `v[lo..hi]`.
pub fn copy_range(v: &Vec<u8>, lo: usize, hi: usize) -> (r: Vec<u8>)
    requires
        lo <= hi <= v@.len(),
    ensures
        r@ == v@.subrange(lo as int, hi as int),
{
    let mut r: Vec<u8> = Vec::new();
    let mut i: usize = lo;
    while i < hi
        invariant
            lo <= i <= hi,
            hi <= v@.len(),
            r@ == v@.subrange(lo as int, i as int),
        decreases hi - i,
    {
        r.push(v[i]);
        i = i + 1;
        assert(r@ =~= v@.subrange(lo as int, i as int));
    }
    r
}

/// Where byte `b` first occurs in `s`.
pub fn find_byte(s: &Vec<u8>, b: u8) -> (r: Option<usize>)
    ensures
        r matches Some(i) ==> find_spec(s@, b) == Some(i as int) && i < s@.len(),
        r is None ==> find_spec(s@, b) is None,
{
    let mut i: usize = 0;
    while i < s.len()
        invariant
            i <= s@.len(),
            forall|j: int| 0 <= j < i ==> s@[j] != b,
        decreases s@.len() - i,
    {
        if s[i] == b {
            assert(first_at(s@, b, i as int));
            assert forall|k: int| first_at(s@, b, k) implies k == i by {
                if k < i {
                } else if k > i {
                    assert(s@[i as int] != b);
                }
            }
            return Some(i);
        }
        i = i + 1;
    }
    assert(!exists|k: int| first_at(s@, b, k));
    None
}

/// The value of the digits `s[start..]`, if there is at least one, all are digits and
/// the value is at most `limit`.
fn parse_digits(s: &Vec<u8>, start: usize, limit: u64) -> (r: Option<u64>)
    requires
        start <= s@.len(),
        limit <= 0x1_0000_0000,
    ensures
        ({
            let d = s@.subrange(start as int, s@.len() as int);
            &&& r matches Some(v) ==> d.len() > 0 && all_digits(d) && digits_value(d) == v && v
                <= limit
            &&& r is None ==> !(d.len() > 0 && all_digits(d) && digits_value(d) <= limit)
        }),
{
    let ghost d = s@.subrange(start as int, s@.len() as int);
    if start == s.len() {
        return None;
    }
    let mut v: u64 = 0;
    let mut i: usize = start;
    while i < s.len()
        invariant
            start <= i <= s@.len(),
            d == s@.subrange(start as int, s@.len() as int),
            all_digits(s@.subrange(start as int, i as int)),
            v == digits_value(s@.subrange(start as int, i as int)),
            v <= limit,
            limit <= 0x1_0000_0000,
        decreases s@.len() - i,
    {
        let c = s[i];
        if c < 48 || c > 57 {
            assert(!all_digits(d)) by {
                assert(d[i - start] == c);
            }
            return None;
        }
        let ghost p = s@.subrange(start as int, i + 1);
        assert(p.drop_last() == s@.subrange(start as int, i as int));
        assert(all_digits(p));
        assert(v * 10 <= 0x10_0000_0000) by (nonlinear_arith)
            requires
                v <= 0x1_0000_0000,
        ;
        let nv: u64 = v * 10 + (c - 48) as u64;
        if nv > limit {
            proof {
                assert(p == d.subrange(0, i + 1 - start));
                if all_digits(d) {
                    lemma_digits_prefix(d, i + 1 - start);
                }
            }
            return None;
        }
        v = nv;
        i = i + 1;
    }
    assert(s@.subrange(start as int, i as int) == d);
    Some(v)
}

/// `u32::from_str` on bytes.
pub fn parse_u32(s: &Vec<u8>) -> (r: Option<u32>)
    ensures
        r == parse_u32_spec(s@),
{
    let start: usize = if s.len() > 0 && s[0] == 43 {
        1
    } else {
        0
    };
    assert(s@.subrange(0, s@.len() as int) == s@);
    match parse_digits(s, start, 0xFFFF_FFFF) {
        Some(v) => Some(v as u32),
        None => None,
    }
}

/// `i32::from_str` on bytes.
pub fn parse_i32(s: &Vec<u8>) -> (r: Option<i32>)
    ensures
        r == parse_i32_spec(s@),
{
    assert(s@.subrange(0, s@.len() as int) == s@);
    if s.len() > 0 && s[0] == 45 {
        match parse_digits(s, 1, 0x8000_0000) {
            Some(v) => Some((0 - v as i64) as i32),
            None => None,
        }
    } else {
        let start: usize = if s.len() > 0 && s[0] == 43 {
            1
        } else {
            0
        };
        match parse_digits(s, start, 0x7FFF_FFFF) {
            Some(v) => Some(v as i32),
            None => None,
        }
    }
}

/// The notation without surrounding whitespace, in lower case.
pub fn normalize(raw: &[u8]) -> (n: Vec<u8>)
    ensures
        n@ == lower_spec(trim_spec(raw@)),
{
    let len = raw.len();
    let mut a: usize = 0;
    while a < len && ((9 <= raw[a] && raw[a] <= 13) || raw[a] == 32)
        invariant
            len == raw@.len(),
            a <= len,
            forall|j: int| 0 <= j < a ==> is_space(#[trigger] raw@[j]),
        decreases len - a,
    {
        a = a + 1;
    }
    assert(lead_at(raw@, a as int));
    assert forall|k: int| lead_at(raw@, k) implies k == a by {
        if k < a {
            assert(is_space(raw@[k]));
        } else if k > a {
            assert(is_space(raw@[a as int]));
        }
    }
    let mut e: usize = len;
    while e > a && ((9 <= raw[e - 1] && raw[e - 1] <= 13) || raw[e - 1] == 32)
        invariant
            len == raw@.len(),
            a <= e <= len,
            forall|j: int| e <= j < len ==> is_space(#[trigger] raw@[j]),
        decreases e,
    {
        e = e - 1;
    }
    assert(trail_at(raw@, a as int, e as int));
    assert forall|k: int| trail_at(raw@, a as int, k) implies k == e by {
        if k < e {
            assert(is_space(raw@[e - 1]));
        } else if k > e {
            assert(is_space(raw@[k - 1]));
        }
    }
    let mut n: Vec<u8> = Vec::new();
    let mut i: usize = a;
    while i < e
        invariant
            len == raw@.len(),
            a <= i <= e <= len,
            n@ == lower_spec(raw@.subrange(a as int, i as int)),
        decreases e - i,
    {
        let b = raw[i];
        let c: u8 = if 65 <= b && b <= 90 {
            b + 32
        } else {
            b
        };
        n.push(c);
        i = i + 1;
        assert(n@ =~= lower_spec(raw@.subrange(a as int, i as int)));
    }
    n
}

/// Reads dice notation: `Ok((dice, sides, modifier))` exactly when it is well formed.
pub fn parse_dice(notation: &str) -> (r: Result<(u32, i32, i32), String>)
    ensures
        r matches Ok(v) ==> dice_spec(notation.spec_bytes()) == Some(v),
        r is Err ==> dice_spec(notation.spec_bytes()) is None,
{
    let n = normalize(notation.as_bytes());
    let dp = match find_byte(&n, 100) {
        Some(i) => i,
        None => {
            return Err(String::from_str("invalid dice notation: missing 'd'"));
        },
    };
    let num_s = copy_range(&n, 0, dp);
    let num: u32 = if num_s.len() == 0 {
        1
    } else {
        match parse_u32(&num_s) {
            Some(v) => v,
            None => {
                return Err(String::from_str("invalid number of dice"));
            },
        }
    };
    let rest = copy_range(&n, dp + 1, n.len());
    let (sides_s, modifier) = match find_byte(&rest, 43) {
        Some(p) => {
            let m = match parse_i32(&copy_range(&rest, p + 1, rest.len())) {
                Some(v) => v,
                None => {
                    return Err(String::from_str("invalid modifier"));
                },
            };
            (copy_range(&rest, 0, p), m)
        },
        None => match find_byte(&rest, 45) {
            Some(q) => {
                let m = match parse_i32(&copy_range(&rest, q + 1, rest.len())) {
                    Some(v) => v,
                    None => {
                        return Err(String::from_str("invalid modifier"));
                    },
                };
                if m == i32::MIN {
                    return Err(String::from_str("invalid modifier"));
                }
                (copy_range(&rest, 0, q), -m)
            },
            None => (rest, 0),
        },
    };
    let sides = match parse_i32(&sides_s) {
        Some(v) => v,
        None => {
            return Err(String::from_str("invalid number of sides"));
        },
    };
    if sides < 1 {
        return Err(String::from_str("dice must have at least 1 side"));
    }
    Ok((num, sides, modifier))
}

} // verus!
