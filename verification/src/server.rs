//! Start-up decisions: the port to listen on and the first administrator.
use vstd::prelude::*;
use crate::text::{digit_char, digits, pow10};

verus! {

/// The port used when none is configured, or the configured one is not a
/// valid port number.
pub const DEFAULT_PORT: u16 = 3000;
/// The administrator's user name and password when none is configured.
pub const DEFAULT_ADMIN: &'static str = "admin";

/// The value of digits `a` followed by digits `b`.
pub proof fn lemma_digits_value_concat(a: Seq<char>, b: Seq<char>)
    requires
        forall|k: int| 0 <= k < b.len() ==> is_ascii_digit(#[trigger] b[k]),
    ensures
        digits_value(a + b) == digits_value(a) * pow10(b.len()) + digits_value(b),
    decreases b.len(),
{
    if b.len() == 0 {
        assert(a + b =~= a);
        assert(pow10(0) == 1);
        assert(digits_value(b) == 0);
        assert(digits_value(a) * pow10(b.len()) == digits_value(a) * 1);
    } else {
        let b2 = b.drop_last();
        assert forall|k: int| 0 <= k < b2.len() implies is_ascii_digit(#[trigger] b2[k]) by {
            assert(b2[k] == b[k]);
        }
        lemma_digits_value_concat(a, b2);
        assert((a + b).drop_last() =~= a + b2);
        assert((a + b).last() == b.last());
        assert(is_ascii_digit(b[b.len() - 1]));
        let d: int = (b.last() as int) - ('0' as int);
        let x = digits_value(a) as int;
        let p = pow10(b2.len()) as int;
        let y = digits_value(b2) as int;
        assert(digits_value(a + b) == (x * p + y) * 10 + d);
        assert(digits_value(b) == y * 10 + d);
        assert(pow10(b.len()) == 10 * p);
        assert((x * p + y) * 10 + d == x * (10 * p) + (y * 10 + d)) by (nonlinear_arith);
        assert(digits_value(a) * pow10(b.len()) == x * (10 * p));
    }
}

/// Whether `c` is an ASCII decimal digit.
pub open spec fn is_ascii_digit(c: char) -> bool {
    '0' <= c && c <= '9'
}

/// The value of a text of decimal digits.
pub open spec fn digits_value(s: Seq<char>) -> nat
    decreases s.len(),
{
    if s.len() == 0 {
        0
    } else {
        digits_value(s.drop_last()) * 10 + ((s.last() as int) - ('0' as int)) as nat
    }
}

/// What `str::parse::<u16>` gives: an optional `+`, then one or more ASCII
/// digits whose value is at most `u16::MAX`; anything else is refused.
pub open spec fn parse_u16(s: Seq<char>) -> Option<u16> {
    if s.len() > 0 && s[0] == '+' {
        parse_u16_digits(s.drop_first())
    } else {
        parse_u16_digits(s)
    }
}

/// The value of one or more ASCII digits when it is at most `u16::MAX`.
pub open spec fn parse_u16_digits(d: Seq<char>) -> Option<u16> {
    if d.len() == 0 || exists|i: int| 0 <= i < d.len() && !is_ascii_digit(#[trigger] d[i]) || digits_value(d) > u16::MAX {
        None
    } else {
        Some(digits_value(d) as u16)
    }
}

/// The port to listen on, from the configured text if any.
pub open spec fn spec_port(value: Option<Seq<char>>) -> u16 {
    match value {
        Some(s) => match parse_u16(s) {
            Some(p) => p,
            None => DEFAULT_PORT,
        },
        None => DEFAULT_PORT,
    }
}

proof fn lemma_digits_value_prefix(s: Seq<char>, i: int)
    requires
        0 <= i < s.len(),
        is_ascii_digit(s[i]),
    ensures
        digits_value(s.take(i + 1)) == digits_value(s.take(i)) * 10 + ((s[i] as int) - ('0' as int)),
{
    assert(s.take(i + 1).drop_last() =~= s.take(i));
    assert(s.take(i + 1).last() == s[i]);
}

proof fn lemma_digits_value_monotone(s: Seq<char>, i: int)
    requires
        0 <= i <= s.len(),
        forall|k: int| 0 <= k < s.len() ==> is_ascii_digit(#[trigger] s[k]),
    ensures
        digits_value(s.take(i)) <= digits_value(s),
    decreases s.len() - i,
{
    if i < s.len() {
        lemma_digits_value_monotone(s, i + 1);
        lemma_digits_value_prefix(s, i);
    } else {
        assert(s.take(i) =~= s);
    }
}

/// Parses a port number as `str::parse::<u16>` does.
pub fn parse_u16_str(s: &str) -> (r: Option<u16>)
    ensures
        match r {
            Some(p) => parse_u16(s@) == Some(p),
            None => parse_u16(s@) is None,
        },
{
    let n = s.unicode_len();
    let mut start: usize = 0;
    if n > 0 && s.get_char(0) == '+' {
        start = 1;
    }
    let ghost d = if s@.len() > 0 && s@[0] == '+' { s@.drop_first() } else { s@ };
    if start == n {
        return None;
    }
    let mut value: u32 = 0;
    let mut i: usize = start;
    while i < n
        invariant
            n == s@.len(),
            start <= i <= n,
            d == (if s@.len() > 0 && s@[0] == '+' { s@.drop_first() } else { s@ }),
            start == n - d.len(),
            forall|k: int| 0 <= k < d.len() ==> d[k] == s@[k + start],
            forall|k: int| 0 <= k < i - start ==> is_ascii_digit(#[trigger] d[k]),
            value as nat == digits_value(d.take(i - start)),
            value <= 65535,
        decreases n - i,
    {
        let c = s.get_char(i);
        assert(c == d[i - start]);
        if !('0' <= c && c <= '9') {
            assert(!is_ascii_digit(d[i - start]));
            return None;
        }
        proof { lemma_digits_value_prefix(d, i - start); }
        let next: u32 = value * 10 + ((c as u32) - ('0' as u32));
        if next > 65535 {
            proof {
                if forall|k: int| 0 <= k < d.len() ==> is_ascii_digit(#[trigger] d[k]) {
                    lemma_digits_value_monotone(d, i - start + 1);
                }
            }
            return None;
        }
        value = next;
        i = i + 1;
    }
    assert(d.take(n - start) =~= d);
    Some(value as u16)
}

/// The port to listen on: the configured value when it parses as a port
/// number, `3000` otherwise.
pub fn parse_port(value: Option<&str>) -> (port: u16)
    ensures
        port == spec_port(match value { Some(s) => Some(s@), None => None }),
{
    match value {
        Some(s) => match parse_u16_str(s) {
            Some(p) => p,
            None => DEFAULT_PORT,
        },
        None => DEFAULT_PORT,
    }
}

/// The administrator to create at start-up: none when there are users
/// already; otherwise the configured user name and password, each `admin`
/// when not configured.
pub fn admin_credentials(user_count: i64, username: Option<String>, password: Option<String>) -> (r: Option<(String, String)>)
    ensures
        user_count > 0 <==> r is None,
        r matches Some((u, p)) ==> {
            &&& u@ == match username { Some(x) => x@, None => DEFAULT_ADMIN@ }
            &&& p@ == match password { Some(x) => x@, None => DEFAULT_ADMIN@ }
        },
{
    if user_count > 0 {
        return None;
    }
    let u = match username {
        Some(x) => x,
        None => String::from_str(DEFAULT_ADMIN),
    };
    let p = match password {
        Some(x) => x,
        None => String::from_str(DEFAULT_ADMIN),
    };
    Some((u, p))
}

/// The decimal digits of `n` are ASCII digits whose value is `n`.
pub proof fn lemma_digits_read_back(n: nat)
    ensures
        forall|k: int| 0 <= k < digits(n).len() ==> is_ascii_digit(#[trigger] digits(n)[k]),
        digits_value(digits(n)) == n,
        digits(n).len() > 0,
    decreases n,
{
    let d = n % 10;
    assert(is_ascii_digit(digit_char(d)) && (digit_char(d) as int) - ('0' as int) == d);
    if n >= 10 {
        lemma_digits_read_back(n / 10);
        let p = digits(n / 10);
        assert(digits(n).drop_last() =~= p);
        assert(digits(n).last() == digit_char(d));
        assert(digits_value(digits(n)) == digits_value(p) * 10 + d);
        assert forall|k: int| 0 <= k < digits(n).len() implies is_ascii_digit(#[trigger] digits(n)[k]) by {
            if k < p.len() {
                assert(digits(n)[k] == p[k]);
            }
        }
    } else {
        assert(digits(n).drop_last() =~= Seq::<char>::empty());
        assert(digits_value(digits(n)) == digits_value(Seq::<char>::empty()) * 10 + d);
    }
}

/// Any port number written in decimal, as `format!("{}")` writes it, is
/// read back as that port.
pub proof fn lemma_port_round_trip(port: u16)
    ensures
        parse_u16(digits(port as nat)) == Some(port),
        spec_port(Some(digits(port as nat))) == port,
{
    lemma_digits_read_back(port as nat);
    assert(is_ascii_digit(digits(port as nat)[0]));
}

} // verus!
