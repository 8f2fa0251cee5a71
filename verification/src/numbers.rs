use vstd::prelude::*;

verus! {

/// A decimal number read from page text, kept exact: the represented value is
/// `mantissa / 10^scale`. The rating of a movie record uses `-1` (scale 0) as
/// the "not found / not parseable" sentinel.
#[derive(Clone, Copy, Debug, PartialEq, Eq, Structural)]
pub struct Rating {
    pub mantissa: i64,
    pub scale: u32,
}

/// The sentinel rating, meaning "not found or not parseable": the value -1.0.
pub open spec fn rating_sentinel() -> Rating {
    Rating { mantissa: -1i64, scale: 0u32 }
}

pub fn rating_not_found() -> (r: Rating)
    ensures
        r == rating_sentinel(),
{
    Rating { mantissa: -1, scale: 0 }
}

pub open spec fn is_digit(c: char) -> bool {
    48 <= c as u32 <= 57
}

pub open spec fn digit_val(c: char) -> int
    recommends
        is_digit(c),
{
    c as u32 - 48
}

pub open spec fn all_digits(s: Seq<char>) -> bool {
    forall|i: int| 0 <= i < s.len() ==> is_digit(#[trigger] s[i])
}

/// Value of a string of decimal digits, most significant first.
pub open spec fn digits_val(s: Seq<char>) -> int
    decreases s.len(),
{
    if s.len() == 0 {
        0
    } else {
        digits_val(s.drop_last()) * 10 + digit_val(s.last())
    }
}

proof fn lemma_digits_val_nonneg(s: Seq<char>)
    requires
        all_digits(s),
    ensures
        digits_val(s) >= 0,
    decreases s.len(),
{
    if s.len() > 0 {
        assert(forall|i: int| 0 <= i < s.drop_last().len() ==> s.drop_last()[i] == s[i]);
        lemma_digits_val_nonneg(s.drop_last());
    }
}

proof fn lemma_digits_val_push(s: Seq<char>, c: char)
    ensures
        digits_val(s.push(c)) == digits_val(s) * 10 + digit_val(c),
{
    assert(s.push(c).drop_last() =~= s);
    assert(s.push(c).last() == c);
}

/// The sign and the remainder of a possibly signed number: a leading '-' or '+'
/// is consumed, anything else leaves the string whole.
pub open spec fn strip_sign(s: Seq<char>) -> (int, Seq<char>) {
    if s.len() > 0 && s[0] == '-' {
        (-1, s.skip(1))
    } else if s.len() > 0 && s[0] == '+' {
        (1, s.skip(1))
    } else {
        (1, s)
    }
}

/// Meaning of parsing a signed decimal integer: an optional sign followed by at
/// least one digit, the value within the i64 range; anything else is no parse.
pub open spec fn parse_i64_spec(s: Seq<char>) -> Option<i64> {
    let sign = strip_sign(s).0;
    let ds = strip_sign(s).1;
    if ds.len() > 0 && all_digits(ds) && i64::MIN <= sign * digits_val(ds) <= i64::MAX {
        Some((sign * digits_val(ds)) as i64)
    } else {
        None
    }
}

/// Index of the first '.' in the string, or -1 if there is none.
pub open spec fn first_dot(s: Seq<char>) -> int
    decreases s.len(),
{
    if s.len() == 0 {
        -1
    } else if s[0] == '.' {
        0
    } else if first_dot(s.skip(1)) == -1 {
        -1
    } else {
        first_dot(s.skip(1)) + 1
    }
}

proof fn lemma_first_dot_at(s: Seq<char>, p: int)
    requires
        0 <= p < s.len(),
        s[p] == '.',
        forall|k: int| 0 <= k < p ==> s[k] != '.',
    ensures
        first_dot(s) == p,
    decreases p,
{
    if p > 0 {
        assert(forall|k: int| 0 <= k < p - 1 ==> s.skip(1)[k] == s[k + 1]);
        lemma_first_dot_at(s.skip(1), p - 1);
    }
}

proof fn lemma_first_dot_none(s: Seq<char>)
    requires
        forall|k: int| 0 <= k < s.len() ==> s[k] != '.',
    ensures
        first_dot(s) == -1,
    decreases s.len(),
{
    if s.len() > 0 {
        assert(forall|k: int| 0 <= k < s.skip(1).len() ==> s.skip(1)[k] == s[k + 1]);
        lemma_first_dot_none(s.skip(1));
    }
}

/// Meaning of parsing a decimal number such as a user rating: an optional sign,
/// one or more digits, and optionally a '.' followed by one or more digits. The
/// mantissa is the digit string with the dot removed, signed; the scale is the
/// number of fractional digits.
pub open spec fn parse_rating_spec(s: Seq<char>) -> Option<Rating> {
    let sign = strip_sign(s).0;
    let ds = strip_sign(s).1;
    let d = first_dot(ds);
    if d == -1 {
        if ds.len() > 0 && all_digits(ds) && i64::MIN <= sign * digits_val(ds) <= i64::MAX {
            Some(Rating { mantissa: (sign * digits_val(ds)) as i64, scale: 0 })
        } else {
            None
        }
    } else {
        let ip = ds.take(d);
        let fp = ds.skip(d + 1);
        let m = sign * digits_val(ip + fp);
        if ip.len() > 0 && fp.len() > 0 && all_digits(ip) && all_digits(fp) && i64::MIN <= m
            <= i64::MAX && fp.len() <= u32::MAX {
            Some(Rating { mantissa: m as i64, scale: fp.len() as u32 })
        } else {
            None
        }
    }
}

/// Reads the digit run `v[from..to]`: its value if every character is a digit
/// and the value fits in u64; `None` if a non-digit occurs or the value is too
/// large for u64.
fn parse_digits(v: &Vec<char>, from: usize, to: usize) -> (r: Option<u64>)
    requires
        from <= to <= v@.len(),
    ensures
        (match r {
            Some(m) => all_digits(v@.subrange(from as int, to as int)) && m as int == digits_val(
                v@.subrange(from as int, to as int),
            ),
            None => !all_digits(v@.subrange(from as int, to as int)) || digits_val(
                v@.subrange(from as int, to as int),
            ) > u64::MAX,
        }),
{
    let ghost whole = v@.subrange(from as int, to as int);
    let mut mag: u64 = 0;
    let mut too_big = false;
    let mut i = from;
    while i < to
        invariant
            from <= i <= to <= v@.len(),
            whole == v@.subrange(from as int, to as int),
            forall|k: int| from <= k < i ==> is_digit(#[trigger] v@[k]),
            !too_big ==> mag as int == digits_val(v@.subrange(from as int, i as int)),
            too_big ==> digits_val(v@.subrange(from as int, i as int)) > u64::MAX,
        decreases to - i,
    {
        let c = v[i];
        let cv = c as u32;
        if !(48 <= cv && cv <= 57) {
            proof {
                assert(whole[i - from] == v@[i as int]);
                assert(!all_digits(whole));
            }
            return None;
        }
        let d = (cv - 48) as u64;
        proof {
            assert(v@.subrange(from as int, i as int + 1) =~= v@.subrange(
                from as int,
                i as int,
            ).push(v@[i as int]));
            lemma_digits_val_push(v@.subrange(from as int, i as int), v@[i as int]);
        }
        if !too_big {
            if mag <= (u64::MAX - d) / 10 {
                mag = mag * 10 + d;
            } else {
                too_big = true;
                proof {
                    lemma_digits_val_nonneg(v@.subrange(from as int, i as int));
                }
            }
        } else {
            proof {
                let prev = digits_val(v@.subrange(from as int, i as int));
                assert(prev * 10 == prev + prev * 9);
                assert(prev * 9 >= 0);
            }
        }
        i = i + 1;
    }
    proof {
        assert(v@.subrange(from as int, to as int) == whole);
    }
    if too_big {
        None
    } else {
        Some(mag)
    }
}

/// Turns a digit-run magnitude back into a signed i64, or `None` where the
/// signed value leaves the i64 range.
fn apply_sign(neg: bool, mag: u64) -> (r: Option<i64>)
    ensures
        (match r {
            Some(x) => x as int == (if neg {
                -(mag as int)
            } else {
                mag as int
            }) && i64::MIN <= x <= i64::MAX,
            None => (if neg {
                -(mag as int)
            } else {
                mag as int
            }) < i64::MIN || (if neg {
                -(mag as int)
            } else {
                mag as int
            }) > i64::MAX,
        }),
{
    if neg {
        if mag <= i64::MAX as u64 {
            Some(-(mag as i64))
        } else if mag == (i64::MAX as u64) + 1 {
            Some(i64::MIN)
        } else {
            None
        }
    } else {
        if mag <= i64::MAX as u64 {
            Some(mag as i64)
        } else {
            None
        }
    }
}

/// Reads the optional leading sign; gives whether the number is negative and
/// the index where the digits start.
fn read_sign(v: &Vec<char>) -> (r: (bool, usize))
    ensures
        r.1 <= v@.len(),
        strip_sign(v@).1 == v@.skip(r.1 as int),
        strip_sign(v@).0 == (if r.0 {
            -1int
        } else {
            1int
        }),
{
    proof {
        assert(v@.skip(0) =~= v@);
    }
    if v.len() > 0 {
        let c0 = v[0];
        if c0 == '-' {
            return (true, 1);
        }
        if c0 == '+' {
            return (false, 1);
        }
    }
    (false, 0)
}

/// Parses a signed decimal integer exactly as `parse_i64_spec` says: an
/// optional sign, then one or more digits, value within the i64 range.
pub fn parse_integer(s: &str) -> (r: Option<i64>)
    ensures
        r == parse_i64_spec(s@),
{
    let v = crate::text::to_chars(s);
    let (neg, idx) = read_sign(&v);
    let n = v.len();
    let ghost ds = strip_sign(s@).1;
    if idx >= n {
        proof {
            assert(ds.len() == 0);
        }
        return None;
    }
    proof {
        assert(ds =~= v@.subrange(idx as int, n as int));
    }
    match parse_digits(&v, idx, n) {
        None => {
            proof {
                if digits_val(v@.subrange(idx as int, n as int)) > u64::MAX {
                    assert(strip_sign(s@).0 * digits_val(ds) > i64::MAX || strip_sign(s@).0
                        * digits_val(ds) < i64::MIN);
                }
            }
            None
        },
        Some(mag) => {
            let r = apply_sign(neg, mag);
            proof {
                assert(strip_sign(s@).0 * digits_val(ds) == (if neg {
                    -(mag as int)
                } else {
                    mag as int
                }));
            }
            r
        },
    }
}

/// Parses a decimal number exactly as `parse_rating_spec` says: an optional
/// sign, digits, and optionally a dot followed by more digits.
pub fn parse_rating(s: &str) -> (r: Option<Rating>)
    ensures
        r == parse_rating_spec(s@),
{
    let v = crate::text::to_chars(s);
    let (neg, idx) = read_sign(&v);
    let n = v.len();
    let ghost sign = strip_sign(s@).0;
    let ghost ds = strip_sign(s@).1;
    if idx >= n {
        proof {
            assert(ds.len() == 0);
        }
        return None;
    }
    proof {
        assert(ds =~= v@.subrange(idx as int, n as int));
    }
    let mut dot: usize = n;
    let mut j = idx;
    while j < n
        invariant
            idx <= j <= n,
            n == v@.len(),
            dot <= n,
            dot == n ==> forall|k: int| idx <= k < j ==> v@[k] != '.',
            dot < n ==> idx <= dot && dot < j && v@[dot as int] == '.' && (forall|k: int|
                idx <= k < dot ==> v@[k] != '.'),
        decreases n - j,
    {
        if dot == n {
            if v[j] == '.' {
                dot = j;
            }
        }
        j = j + 1;
    }
    if dot == n {
        proof {
            assert(forall|k: int| 0 <= k < ds.len() ==> ds[k] == v@[idx + k]);
            lemma_first_dot_none(ds);
        }
        match parse_digits(&v, idx, n) {
            None => {
                proof {
                    if digits_val(v@.subrange(idx as int, n as int)) > u64::MAX {
                        assert(sign * digits_val(ds) > i64::MAX || sign * digits_val(ds)
                            < i64::MIN);
                    }
                }
                None
            },
            Some(mag) => {
                proof {
                    assert(sign * digits_val(ds) == (if neg {
                        -(mag as int)
                    } else {
                        mag as int
                    }));
                }
                match apply_sign(neg, mag) {
                    Some(x) => Some(Rating { mantissa: x, scale: 0 }),
                    None => None,
                }
            },
        }
    } else {
        let ghost p = dot - idx;
        proof {
            assert(forall|k: int| 0 <= k < ds.len() ==> ds[k] == v@[idx + k]);
            lemma_first_dot_at(ds, p);
        }
        let ghost ip = ds.take(p);
        let ghost fp = ds.skip(p + 1);
        proof {
            assert(ip =~= v@.subrange(idx as int, dot as int));
            assert(fp =~= v@.subrange(dot as int + 1, n as int));
        }
        if dot == idx {
            proof {
                assert(ip.len() == 0);
            }
            return None;
        }
        if dot + 1 >= n {
            proof {
                assert(fp.len() == 0);
            }
            return None;
        }
        let mut w: Vec<char> = Vec::new();
        let mut a = idx;
        while a < dot
            invariant
                idx <= a <= dot <= n,
                n == v@.len(),
                w@ == v@.subrange(idx as int, a as int),
            decreases dot - a,
        {
            w.push(v[a]);
            a = a + 1;
            proof {
                assert(w@ =~= v@.subrange(idx as int, a as int));
            }
        }
        let mut b = dot + 1;
        while b < n
            invariant
                dot + 1 <= b <= n,
                n == v@.len(),
                idx <= dot,
                w@ == v@.subrange(idx as int, dot as int) + v@.subrange(dot as int + 1, b as int),
            decreases n - b,
        {
            w.push(v[b]);
            b = b + 1;
            proof {
                assert(w@ =~= v@.subrange(idx as int, dot as int) + v@.subrange(
                    dot as int + 1,
                    b as int,
                ));
            }
        }
        proof {
            assert(w@ == ip + fp);
        }
        let wlen = w.len();
        match parse_digits(&w, 0, wlen) {
            None => {
                proof {
                    assert(w@.subrange(0, wlen as int) =~= w@);
                    if !all_digits(w@) {
                        assert(!(all_digits(ip) && all_digits(fp))) by {
                            if all_digits(ip) && all_digits(fp) {
                                assert(forall|k: int|
                                    0 <= k < w@.len() ==> is_digit(#[trigger] w@[k])) by {
                                    assert(forall|k: int|
                                        0 <= k < ip.len() ==> w@[k] == ip[k]);
                                    assert(forall|k: int|
                                        ip.len() <= k < w@.len() ==> w@[k] == fp[k - ip.len()]);
                                }
                            }
                        }
                    } else {
                        assert(sign * digits_val(ip + fp) > i64::MAX || sign * digits_val(ip + fp)
                            < i64::MIN);
                    }
                }
                None
            },
            Some(mag) => {
                proof {
                    assert(w@.subrange(0, wlen as int) =~= w@);
                    assert(all_digits(ip)) by {
                        assert(forall|k: int| 0 <= k < ip.len() ==> ip[k] == w@[k]);
                    }
                    assert(all_digits(fp)) by {
                        assert(forall|k: int| 0 <= k < fp.len() ==> fp[k] == w@[ip.len() + k]);
                    }
                    assert(sign * digits_val(ip + fp) == (if neg {
                        -(mag as int)
                    } else {
                        mag as int
                    }));
                }
                let frac_len = n - (dot + 1);
                if frac_len > u32::MAX as usize {
                    return None;
                }
                match apply_sign(neg, mag) {
                    Some(x) => Some(Rating { mantissa: x, scale: frac_len as u32 }),
                    None => None,
                }
            },
        }
    }
}

} // verus!
