use vstd::prelude::*;

verus! {

/// Why a dimension string was rejected.
#[derive(Copy, Clone, Debug, PartialEq, Eq, Structural)]
pub enum VectorError {
    /// The second scalar is missing: the string has no separator.
    MissingScalar,
    /// A scalar is the empty string.
    EmptyScalar,
    /// A scalar holds a character that is not a decimal digit.
    InvalidDigit,
    /// A scalar does not fit in usize.
    Overflow,
    /// Data remains after the second scalar.
    ExtraData,
}

/// A pair of image dimensions, written `WIDTHxHEIGHT` on the command line.
#[derive(Copy, Clone, Debug, PartialEq, Eq, Structural, Default)]
pub struct Vector2 {
    pub x: usize,
    pub y: usize,
}

pub open spec fn is_digit(c: char) -> bool {
    48 <= c as u32 <= 57
}

pub open spec fn digit_value(c: char) -> nat {
    (c as u32 - 48) as nat
}

pub open spec fn all_digits(s: Seq<char>) -> bool {
    forall|i: int| 0 <= i < s.len() ==> is_digit(#[trigger] s[i])
}

/// The number a run of decimal digits denotes.
pub open spec fn digits_value(s: Seq<char>) -> nat
    decreases s.len(),
{
    if s.len() == 0 {
        0
    } else {
        digits_value(s.drop_last()) * 10 + digit_value(s.last())
    }
}

/// The digit run of a scalar: an optional leading plus sign is accepted, as
/// in usize's own decimal grammar, and is not part of the denoted number.
pub open spec fn scalar_digits(part: Seq<char>) -> Seq<char> {
    if part.len() > 0 && part[0] == '+' {
        part.subrange(1, part.len() as int)
    } else {
        part
    }
}

/// What parsing one scalar part of a dimension string yields: the denoted
/// number for a nonempty run of decimal digits, optionally led by a plus
/// sign, that fits in usize, and otherwise exactly which rule the part
/// breaks.
pub open spec fn parse_scalar_spec(part: Seq<char>) -> Result<nat, VectorError> {
    let digits = scalar_digits(part);
    if part.len() == 0 {
        Err(VectorError::EmptyScalar)
    } else if digits.len() == 0 || !all_digits(digits) {
        Err(VectorError::InvalidDigit)
    } else if digits_value(digits) > usize::MAX {
        Err(VectorError::Overflow)
    } else {
        Ok(digits_value(digits))
    }
}

/// The position of the first separator at or after `from`, or the string's
/// length where there is none.
pub open spec fn find_sep(s: Seq<char>, from: int) -> int
    decreases s.len() - from,
{
    if from < 0 || from >= s.len() {
        s.len() as int
    } else if s[from] == 'x' {
        from
    } else {
        find_sep(s, from + 1)
    }
}

pub proof fn lemma_find_sep(s: Seq<char>, from: int)
    requires
        0 <= from <= s.len(),
    ensures
        from <= find_sep(s, from) <= s.len(),
        find_sep(s, from) < s.len() ==> s[find_sep(s, from)] == 'x',
        forall|j: int| from <= j < find_sep(s, from) ==> s[j] != 'x',
    decreases s.len() - from,
{
    if from < s.len() && s[from] != 'x' {
        lemma_find_sep(s, from + 1);
    }
}

/// What parsing a whole dimension string yields. The first scalar runs up to
/// the first separator, the second from there to the next separator or the
/// end; a scalar's own defect is reported before anything that follows it,
/// and a string with data after the second scalar is rejected.
pub open spec fn parse_vector_spec(s: Seq<char>) -> Result<(nat, nat), VectorError> {
    let n = s.len() as int;
    let i = find_sep(s, 0);
    if i == n {
        match parse_scalar_spec(s) {
            Ok(_) => Err(VectorError::MissingScalar),
            Err(e) => Err(e),
        }
    } else {
        let j = find_sep(s, i + 1);
        match parse_scalar_spec(s.subrange(0, i)) {
            Err(e) => Err(e),
            Ok(x) => match parse_scalar_spec(s.subrange(i + 1, j)) {
                Err(e) => Err(e),
                Ok(y) => if j != n {
                    Err(VectorError::ExtraData)
                } else {
                    Ok((x, y))
                },
            },
        }
    }
}

/// A prefix of a digit run never denotes more than the whole run.
proof fn lemma_digits_value_prefix_le(s: Seq<char>, m: int)
    requires
        0 <= m <= s.len(),
    ensures
        digits_value(s.subrange(0, m)) <= digits_value(s),
    decreases s.len() - m,
{
    if m == s.len() {
        assert(s.subrange(0, m) =~= s);
    } else {
        let a = s.subrange(0, m);
        let b = s.subrange(0, m + 1);
        assert(b.drop_last() =~= a);
        assert(digits_value(b) == digits_value(a) * 10 + digit_value(b.last()));
        lemma_digits_value_prefix_le(s, m + 1);
    }
}

fn find_sep_exec(s: &str, from: usize) -> (i: usize)
    requires
        from <= s@.len(),
    ensures
        i == find_sep(s@, from as int),
{
    let n = s.unicode_len();
    let mut k: usize = from;
    while k < n
        invariant
            from <= k <= n,
            n == s@.len(),
            find_sep(s@, from as int) == find_sep(s@, k as int),
        decreases n - k,
    {
        let c = s.get_char(k);
        if c == 'x' {
            return k;
        }
        k = k + 1;
    }
    k
}

impl Vector2 {
    /// Parses one scalar part of a dimension string, split off at the
    /// separators, as a decimal unsigned integer with an optional leading
    /// plus sign.
    pub fn parse_split_iter(part: &str) -> (r: Result<usize, VectorError>)
        ensures
            match (r, parse_scalar_spec(part@)) {
                (Ok(v), Ok(value)) => v == value,
                (Err(actual), Err(expected)) => actual == expected,
                _ => false,
            },
    {
        let n = part.unicode_len();
        if n == 0 {
            return Err(VectorError::EmptyScalar);
        }
        let first = part.get_char(0);
        let start: usize = if first == '+' {
            1
        } else {
            0
        };
        let ghost digits = scalar_digits(part@);
        proof {
            assert(digits =~= part@.subrange(start as int, n as int));
        }
        if start == n {
            return Err(VectorError::InvalidDigit);
        }
        let mut i: usize = start;
        while i < n
            invariant
                n == part@.len(),
                start < n,
                start <= i <= n,
                digits == scalar_digits(part@),
                digits == part@.subrange(start as int, n as int),
                forall|j: int| start <= j < i ==> is_digit(#[trigger] part@[j]),
            decreases n - i,
        {
            let c = part.get_char(i);
            let u = c as u32;
            if u < 48 || u > 57 {
                proof {
                    assert(digits[i - start as int] == part@[i as int]);
                    assert(!is_digit(digits[i - start as int]));
                }
                return Err(VectorError::InvalidDigit);
            }
            i = i + 1;
        }
        proof {
            assert forall|j: int| 0 <= j < digits.len() implies is_digit(#[trigger] digits[j]) by {
                assert(digits[j] == part@[j + start]);
            }
            assert(all_digits(digits));
        }
        let mut acc: usize = 0;
        let mut k: usize = start;
        while k < n
            invariant
                n == part@.len(),
                start <= k <= n,
                start < n,
                digits == scalar_digits(part@),
                digits == part@.subrange(start as int, n as int),
                all_digits(digits),
                forall|j: int| start <= j < n ==> is_digit(#[trigger] part@[j]),
                acc == digits_value(part@.subrange(start as int, k as int)),
            decreases n - k,
        {
            let ghost pre = part@.subrange(start as int, k as int);
            let ghost post = part@.subrange(start as int, k as int + 1);
            proof {
                assert(is_digit(part@[k as int]));
                assert(post.drop_last() =~= pre);
                assert(digits_value(post) == digits_value(pre) * 10 + digit_value(post.last()));
                assert(post =~= digits.subrange(0, k as int + 1 - start));
            }
            let c = part.get_char(k);
            let d = (c as u32 - 48) as usize;
            let scaled = match acc.checked_mul(10) {
                Some(p) => p,
                None => {
                    proof {
                        lemma_digits_value_prefix_le(digits, k as int + 1 - start);
                    }
                    return Err(VectorError::Overflow);
                },
            };
            acc = match scaled.checked_add(d) {
                Some(v) => v,
                None => {
                    proof {
                        lemma_digits_value_prefix_le(digits, k as int + 1 - start);
                    }
                    return Err(VectorError::Overflow);
                },
            };
            k = k + 1;
        }
        proof {
            assert(part@.subrange(start as int, n as int) =~= digits);
        }
        Ok(acc)
    }

    /// Parses a dimension string of the form `WIDTHxHEIGHT`, two decimal
    /// scalars (each with usize's optional leading plus sign) around one
    /// separator, rejecting anything after the second scalar.
    pub fn from_str_intern(s: &str) -> (r: Result<Vector2, VectorError>)
        ensures
            match (r, parse_vector_spec(s@)) {
                (Ok(v), Ok(dims)) => v.x == dims.0 && v.y == dims.1,
                (Err(actual), Err(expected)) => actual == expected,
                _ => false,
            },
    {
        let n = s.unicode_len();
        let i = find_sep_exec(s, 0);
        proof {
            lemma_find_sep(s@, 0);
        }
        if i == n {
            match Self::parse_split_iter(s) {
                Ok(_) => Err(VectorError::MissingScalar),
                Err(e) => Err(e),
            }
        } else {
            let x_part = s.substring_char(0, i);
            let x = match Self::parse_split_iter(x_part) {
                Ok(v) => v,
                Err(e) => {
                    return Err(e);
                },
            };
            let j = find_sep_exec(s, i + 1);
            proof {
                lemma_find_sep(s@, i as int + 1);
            }
            let y_part = s.substring_char(i + 1, j);
            let y = match Self::parse_split_iter(y_part) {
                Ok(v) => v,
                Err(e) => {
                    return Err(e);
                },
            };
            if j != n {
                Err(VectorError::ExtraData)
            } else {
                Ok(Vector2 { x, y })
            }
        }
    }
}

} // verus!
