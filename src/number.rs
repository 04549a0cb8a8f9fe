//! Decimal integers: reading an `i32` from characters and writing one out.
use vstd::prelude::*;
use vstd::string::StringExecFns;

verus! {

/// Why a text is not a decimal `i32`.
#[derive(Clone, Copy, Debug, PartialEq, Eq, Structural)]
pub enum IntErrorKind {
    /// The text is empty.
    Empty,
    /// A character other than a digit, or a sign with no digits after it.
    InvalidDigit,
    /// The value is above `i32::MAX`.
    PosOverflow,
    /// The value is below `i32::MIN`.
    NegOverflow,
}

pub open spec fn int_error_name(e: IntErrorKind) -> Seq<char> {
    match e {
        IntErrorKind::Empty => "Empty"@,
        IntErrorKind::InvalidDigit => "InvalidDigit"@,
        IntErrorKind::PosOverflow => "PosOverflow"@,
        IntErrorKind::NegOverflow => "NegOverflow"@,
    }
}

impl IntErrorKind {
    /// The variant's name.
    pub fn name(&self) -> (r: &'static str)
        ensures
            r@ == int_error_name(*self),
    {
        match self {
            IntErrorKind::Empty => "Empty",
            IntErrorKind::InvalidDigit => "InvalidDigit",
            IntErrorKind::PosOverflow => "PosOverflow",
            IntErrorKind::NegOverflow => "NegOverflow",
        }
    }
}

pub open spec fn is_digit(c: char) -> bool {
    '0' <= c && c <= '9'
}

pub open spec fn digit_value(c: char) -> int {
    c as int - '0' as int
}

pub open spec fn all_digits(s: Seq<char>) -> bool {
    forall|i: int| 0 <= i < s.len() ==> is_digit(#[trigger] s[i])
}

/// The value of a string of digits, most significant first.
pub open spec fn digits_value(s: Seq<char>) -> int
    decreases s.len(),
{
    if s.len() == 0 {
        0
    } else {
        digits_value(s.drop_last()) * 10 + digit_value(s.last())
    }
}

/// The digits of `s` after an optional leading sign.
pub open spec fn unsigned_part(s: Seq<char>) -> Seq<char> {
    if s.len() > 0 && (s[0] == '-' || s[0] == '+') {
        s.drop_first()
    } else {
        s
    }
}

/// An optional `+` or `-`, then one or more ASCII digits, whose value fits in `i32`.
pub open spec fn int_of(s: Seq<char>) -> Result<i32, IntErrorKind> {
    let body = unsigned_part(s);
    if s.len() == 0 {
        Err(IntErrorKind::Empty)
    } else if body.len() == 0 || !all_digits(body) {
        Err(IntErrorKind::InvalidDigit)
    } else {
        let v = if s[0] == '-' {
            -digits_value(body)
        } else {
            digits_value(body)
        };
        if v > i32::MAX {
            Err(IntErrorKind::PosOverflow)
        } else if v < i32::MIN {
            Err(IntErrorKind::NegOverflow)
        } else {
            Ok(v as i32)
        }
    }
}

/// Reads `s[lo..hi]` as a decimal `i32`.
pub fn parse_int(s: &Vec<char>, lo: usize, hi: usize) -> (r: Result<i32, IntErrorKind>)
    requires
        lo <= hi <= s@.len(),
    ensures
        r == int_of(s@.subrange(lo as int, hi as int)),
{
    let ghost text = s@.subrange(lo as int, hi as int);
    if lo == hi {
        return Err(IntErrorKind::Empty);
    }
    let negative = s[lo] == '-';
    let start: usize = if s[lo] == '-' || s[lo] == '+' {
        lo + 1
    } else {
        lo
    };
    let ghost body = s@.subrange(start as int, hi as int);
    assert(unsigned_part(text) =~= body);
    if start == hi {
        return Err(IntErrorKind::InvalidDigit);
    }
    let mut i: usize = start;
    while i < hi
        invariant
            start <= i <= hi <= s@.len(),
            body == s@.subrange(start as int, hi as int),
            lo < hi,
            unsigned_part(s@.subrange(lo as int, hi as int)) == body,
            forall|j: int| start <= j < i ==> is_digit(#[trigger] s@[j]),
        decreases hi - i,
    {
        if !('0' <= s[i] && s[i] <= '9') {
            assert(body[(i - start) as int] == s@[i as int]);
            assert(!is_digit(body[(i - start) as int]));
            return Err(IntErrorKind::InvalidDigit);
        }
        i = i + 1;
    }
    assert(all_digits(body)) by {
        assert forall|j: int| 0 <= j < body.len() implies is_digit(#[trigger] body[j]) by {
            assert(body[j] == s@[start + j]);
        }
    }
    // Past 2^31 the exact value no longer matters: it is out of range either way.
    let cap: u64 = 2147483648;
    let mut acc: u64 = 0;
    let mut k: usize = start;
    while k < hi
        invariant
            start <= k <= hi <= s@.len(),
            body == s@.subrange(start as int, hi as int),
            all_digits(body),
            cap == 2147483648,
            digits_value(body.take(k - start)) <= cap ==> acc == digits_value(body.take(k - start)),
            digits_value(body.take(k - start)) > cap ==> acc > cap,
            acc <= 10 * cap + 9,
        decreases hi - k,
    {
        let ghost prefix = body.take(k - start);
        let ghost grown = body.take(k + 1 - start);
        proof {
            assert(grown.drop_last() =~= prefix);
            assert(grown.last() == s@[k as int]);
            assert(is_digit(body[k - start]));
        }
        let d = (s[k] as u32 - '0' as u32) as u64;
        if acc <= cap {
            acc = acc * 10 + d;
        }
        k = k + 1;
    }
    assert(body.take(hi - start) =~= body);
    if negative {
        if acc > cap {
            Err(IntErrorKind::NegOverflow)
        } else {
            Ok((0 - (acc as i64)) as i32)
        }
    } else {
        if acc > cap - 1 {
            Err(IntErrorKind::PosOverflow)
        } else {
            Ok(acc as i32)
        }
    }
}

pub open spec fn digit_char(d: int) -> char {
    ('0' as int + d) as char
}

/// The decimal digits of `m`, most significant first, with no leading zeros.
pub open spec fn digits_of(m: nat) -> Seq<char>
    decreases m,
{
    if m < 10 {
        seq![digit_char(m as int)]
    } else {
        digits_of(m / 10).push(digit_char((m % 10) as int))
    }
}

/// `n` in base ten, with a leading `-` when it is negative.
pub open spec fn decimal(n: int) -> Seq<char> {
    if n < 0 {
        seq!['-'] + digits_of((-n) as nat)
    } else {
        digits_of(n as nat)
    }
}

fn digit_text(d: u64) -> (r: &'static str)
    requires
        d < 10,
    ensures
        r@ == seq![digit_char(d as int)],
{
    proof {
        reveal_strlit("0");
        reveal_strlit("1");
        reveal_strlit("2");
        reveal_strlit("3");
        reveal_strlit("4");
        reveal_strlit("5");
        reveal_strlit("6");
        reveal_strlit("7");
        reveal_strlit("8");
        reveal_strlit("9");
    }
    match d {
        0 => "0",
        1 => "1",
        2 => "2",
        3 => "3",
        4 => "4",
        5 => "5",
        6 => "6",
        7 => "7",
        8 => "8",
        _ => "9",
    }
}

/// Appends `n` in base ten to `out`.
pub fn push_decimal(out: &mut String, n: i32)
    ensures
        final(out)@ == old(out)@ + decimal(n as int),
{
    let ghost start = out@;
    let mag: u64 = if n < 0 {
        (0 - (n as i64)) as u64
    } else {
        n as u64
    };
    if n < 0 {
        proof {
            reveal_strlit("-");
        }
        out.append("-");
    }
    let ghost lead: Seq<char> = if n < 0 {
        seq!['-']
    } else {
        Seq::empty()
    };
    assert(out@ == start + lead);
    let mut low_first: Vec<u64> = Vec::new();
    let mut m: u64 = mag;
    loop
        invariant_except_break
            digits_of(mag as nat) == digits_of(m as nat) + Seq::new(
                low_first@.len(),
                |i: int| digit_char(low_first@[low_first@.len() - 1 - i] as int),
            ),
        invariant
            m <= mag,
            forall|i: int| 0 <= i < low_first@.len() ==> #[trigger] low_first@[i] < 10,
        ensures
            digits_of(mag as nat) =~= Seq::new(
                low_first@.len(),
                |i: int| digit_char(low_first@[low_first@.len() - 1 - i] as int),
            ),
        decreases m,
    {
        let ghost before = low_first@;
        low_first.push(m % 10);
        if m < 10 {
            proof {
                assert(digits_of(mag as nat) =~= Seq::new(
                    low_first@.len(),
                    |i: int| digit_char(low_first@[low_first@.len() - 1 - i] as int),
                ));
            }
            break;
        }
        proof {
            assert(digits_of(m as nat) == digits_of((m / 10) as nat).push(digit_char((m % 10) as int)));
            assert(digits_of(mag as nat) =~= digits_of((m / 10) as nat) + Seq::new(
                low_first@.len(),
                |i: int| digit_char(low_first@[low_first@.len() - 1 - i] as int),
            ));
        }
        m = m / 10;
    }
    let ghost all = digits_of(mag as nat);
    let mut j: usize = low_first.len();
    while j > 0
        invariant
            j <= low_first@.len(),
            all.len() == low_first@.len(),
            forall|i: int|
                0 <= i < all.len() ==> all[i] == digit_char(low_first@[low_first@.len() - 1 - i] as int),
            forall|i: int| 0 <= i < low_first@.len() ==> #[trigger] low_first@[i] < 10,
            out@ == start + lead + all.take(low_first@.len() - j),
        decreases j,
    {
        j = j - 1;
        let piece = digit_text(low_first[j]);
        proof {
            assert(all.take(low_first@.len() - j) =~= all.take(low_first@.len() - j - 1) + piece@);
        }
        out.append(piece);
    }
    proof {
        assert(all.take(low_first@.len() as int) =~= all);
        if n < 0 {
            assert(mag as int == -(n as int));
        }
        assert(lead + all =~= decimal(n as int));
    }
}

} // verus!
