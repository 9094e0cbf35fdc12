//! Decimal rendering of integers, as `format!("{}")` and `format!("{:0w}")`
//! print them, and a few character-level helpers.
use vstd::prelude::*;
use crate::server::{digits_value, is_ascii_digit, lemma_digits_read_back, lemma_digits_value_concat};

verus! {

/// The ASCII digit for `d` (meaningful for `d < 10`).
pub open spec fn digit_char(d: nat) -> char {
    if d == 0 { '0' }
    else if d == 1 { '1' }
    else if d == 2 { '2' }
    else if d == 3 { '3' }
    else if d == 4 { '4' }
    else if d == 5 { '5' }
    else if d == 6 { '6' }
    else if d == 7 { '7' }
    else if d == 8 { '8' }
    else { '9' }
}

/// The decimal digits of `n`, most significant first, without leading zeros
/// (`0` is written `"0"`).
pub open spec fn digits(n: nat) -> Seq<char>
    decreases n,
{
    if n < 10 {
        seq![digit_char(n)]
    } else {
        digits(n / 10).push(digit_char(n % 10))
    }
}

/// What `format!("{}", x)` prints for an integer `x`.
pub open spec fn decimal_int(x: int) -> Seq<char> {
    if x < 0 {
        seq!['-'] + digits((-x) as nat)
    } else {
        digits(x as nat)
    }
}

/// `n` copies of `'0'`.
pub open spec fn zeros(n: nat) -> Seq<char> {
    Seq::new(n, |i: int| '0')
}

/// What `format!("{:0w$}", x)` prints for an integer `x` and width `w`:
/// the sign, then enough zeros to reach `w` characters, then the digits.
pub open spec fn zero_padded(x: int, w: nat) -> Seq<char> {
    let sign: Seq<char> = if x < 0 { seq!['-'] } else { seq![] };
    let body = digits(if x < 0 { (-x) as nat } else { x as nat });
    let fill: int = w - sign.len() - body.len();
    sign + zeros(if fill > 0 { fill as nat } else { 0 }) + body
}

/// `10` to the power `k`.
pub open spec fn pow10(k: nat) -> nat
    decreases k,
{
    if k == 0 { 1 } else { 10 * pow10((k - 1) as nat) }
}

/// `10^20`, the first power of ten beyond `u64::MAX`.
pub proof fn lemma_pow10_20()
    ensures
        pow10(20) == 100000000000000000000,
{
    reveal_with_fuel(pow10, 21);
}

/// A number below `10^k` (`k >= 1`) has at most `k` digits.
pub proof fn lemma_digits_len(n: nat, k: nat)
    requires
        k >= 1,
        n < pow10(k),
    ensures
        1 <= digits(n).len() <= k,
    decreases n,
{
    if n >= 10 {
        if k == 1 {
            assert(pow10(1) == 10) by { reveal_with_fuel(pow10, 2); }
        }
        lemma_digits_len(n / 10, (k - 1) as nat);
    }
}

fn digit_str(d: u64) -> (s: &'static str)
    requires
        d < 10,
    ensures
        s@ == seq![digit_char(d as nat)],
{
    if d == 0 {
        proof { reveal_strlit("0"); }
        "0"
    } else if d == 1 {
        proof { reveal_strlit("1"); }
        "1"
    } else if d == 2 {
        proof { reveal_strlit("2"); }
        "2"
    } else if d == 3 {
        proof { reveal_strlit("3"); }
        "3"
    } else if d == 4 {
        proof { reveal_strlit("4"); }
        "4"
    } else if d == 5 {
        proof { reveal_strlit("5"); }
        "5"
    } else if d == 6 {
        proof { reveal_strlit("6"); }
        "6"
    } else if d == 7 {
        proof { reveal_strlit("7"); }
        "7"
    } else if d == 8 {
        proof { reveal_strlit("8"); }
        "8"
    } else {
        proof { reveal_strlit("9"); }
        "9"
    }
}

/// Appends the decimal digits of `n`.
pub fn push_digits(out: &mut String, n: u64)
    ensures
        final(out)@ == old(out)@ + digits(n as nat),
    decreases n,
{
    if n >= 10 {
        push_digits(out, n / 10);
    }
    out.append(digit_str(n % 10));
    proof {
        assert(old(out)@ + digits(n as nat) =~= if n >= 10 {
            (old(out)@ + digits((n / 10) as nat)).push(digit_char((n % 10) as nat))
        } else {
            old(out)@.push(digit_char((n % 10) as nat))
        });
    }
}

/// The magnitude of `x` as an unsigned number (exact even for `i64::MIN`).
pub fn magnitude(x: i64) -> (m: u64)
    ensures
        m as int == if x < 0 { -x } else { x as int },
{
    if x < 0 {
        ((-(x + 1)) as u64) + 1
    } else {
        x as u64
    }
}

/// Appends `x` as `format!("{}", x)` prints it.
pub fn push_int(out: &mut String, x: i64)
    ensures
        final(out)@ == old(out)@ + decimal_int(x as int),
{
    let m = magnitude(x);
    if x < 0 {
        proof { reveal_strlit("-"); }
        out.append("-");
    }
    push_digits(out, m);
    proof {
        assert(old(out)@ + decimal_int(x as int) =~= if x < 0 {
            old(out)@ + seq!['-'] + digits(m as nat)
        } else {
            old(out)@ + digits(m as nat)
        });
    }
}

/// Appends `n` zeros.
fn push_zeros(out: &mut String, n: u64)
    ensures
        final(out)@ == old(out)@ + zeros(n as nat),
{
    let mut i: u64 = 0;
    while i < n
        invariant
            i <= n,
            out@ == old(out)@ + zeros(i as nat),
        decreases n - i,
    {
        proof { reveal_strlit("0"); }
        out.append("0");
        i = i + 1;
        assert(out@ =~= old(out)@ + zeros(i as nat));
    }
}

/// The number of decimal digits of `n`, computed.
fn count_digits(n: u64) -> (c: u64)
    ensures
        c as nat == digits(n as nat).len(),
    decreases n,
{
    if n < 10 {
        1
    } else {
        proof {
            lemma_pow10_20();
            lemma_digits_len((n / 10) as nat, 20);
        }
        count_digits(n / 10) + 1
    }
}

/// Appends `x` as `format!("{:0w$}", x)` prints it for width `w`.
pub fn push_zero_padded(out: &mut String, x: i64, w: u64)
    ensures
        final(out)@ == old(out)@ + zero_padded(x as int, w as nat),
{
    let m = magnitude(x);
    let sign_len: u64 = if x < 0 { 1 } else { 0 };
    let body_len = count_digits(m);
    if x < 0 {
        proof { reveal_strlit("-"); }
        out.append("-");
    }
    proof {
        lemma_pow10_20();
        lemma_digits_len(m as nat, 20);
    }
    let used = sign_len + body_len;
    let fill: u64 = if w > used { w - used } else { 0 };
    push_zeros(out, fill);
    push_digits(out, m);
    proof {
        let sign: Seq<char> = if x < 0 { seq!['-'] } else { seq![] };
        assert(old(out)@ + zero_padded(x as int, w as nat) =~=
            old(out)@ + sign + zeros(fill as nat) + digits(m as nat));
    }
}


/// Whether `c` has the Unicode `White_Space` property, which is what
/// `char::is_whitespace` tests.
pub open spec fn is_whitespace(c: char) -> bool {
    let x = c as u32;
    ||| 0x09 <= x <= 0x0D
    ||| x == 0x20
    ||| x == 0x85
    ||| x == 0xA0
    ||| x == 0x1680
    ||| 0x2000 <= x <= 0x200A
    ||| x == 0x2028
    ||| x == 0x2029
    ||| x == 0x202F
    ||| x == 0x205F
    ||| x == 0x3000
}

/// Tests `is_whitespace`.
pub fn char_is_whitespace(c: char) -> (b: bool)
    ensures
        b == is_whitespace(c),
{
    let x = c as u32;
    (0x09 <= x && x <= 0x0D) || x == 0x20 || x == 0x85 || x == 0xA0 || x == 0x1680
        || (0x2000 <= x && x <= 0x200A) || x == 0x2028 || x == 0x2029 || x == 0x202F
        || x == 0x205F || x == 0x3000
}

/// `s` without its leading whitespace.
pub open spec fn trim_start(s: Seq<char>) -> Seq<char>
    decreases s.len(),
{
    if s.len() > 0 && is_whitespace(s[0]) {
        trim_start(s.drop_first())
    } else {
        s
    }
}

/// `s` without its trailing whitespace.
pub open spec fn trim_end(s: Seq<char>) -> Seq<char>
    decreases s.len(),
{
    if s.len() > 0 && is_whitespace(s.last()) {
        trim_end(s.drop_last())
    } else {
        s
    }
}

/// `s` without leading and trailing whitespace, as `str::trim` gives it.
pub open spec fn trim(s: Seq<char>) -> Seq<char> {
    trim_end(trim_start(s))
}

proof fn lemma_trim_start_skip(s: Seq<char>, i: int)
    requires
        0 <= i <= s.len(),
        forall|j: int| 0 <= j < i ==> is_whitespace(#[trigger] s[j]),
    ensures
        trim_start(s) == trim_start(s.subrange(i, s.len() as int)),
    decreases i,
{
    if i > 0 {
        lemma_trim_start_skip(s, i - 1);
        let t = s.subrange(i - 1, s.len() as int);
        assert(t[0] == s[i - 1]);
        assert(t.drop_first() =~= s.subrange(i, s.len() as int));
    } else {
        assert(s.subrange(0, s.len() as int) =~= s);
    }
}

proof fn lemma_trim_end_skip(s: Seq<char>, j: int)
    requires
        0 <= j <= s.len(),
        forall|k: int| j <= k < s.len() ==> is_whitespace(#[trigger] s[k]),
    ensures
        trim_end(s) == trim_end(s.subrange(0, j)),
    decreases s.len() - j,
{
    if j < s.len() {
        lemma_trim_end_skip(s, j + 1);
        let t = s.subrange(0, j + 1);
        assert(t.last() == s[j]);
        assert(t.drop_last() =~= s.subrange(0, j));
    } else {
        assert(s.subrange(0, s.len() as int) =~= s);
    }
}

/// `s` without leading and trailing whitespace.
pub fn trim_str(s: &str) -> (t: &str)
    ensures
        t@ == trim(s@),
        forall|k: int| 0 <= k < t@.len() ==> s@.contains(#[trigger] t@[k]),
{
    let n = s.unicode_len();
    let mut i: usize = 0;
    while i < n && char_is_whitespace(s.get_char(i))
        invariant
            n == s@.len(),
            i <= n,
            forall|k: int| 0 <= k < i ==> is_whitespace(#[trigger] s@[k]),
        decreases n - i,
    {
        i = i + 1;
    }
    proof {
        lemma_trim_start_skip(s@, i as int);
    }
    let ghost rest = s@.subrange(i as int, n as int);
    let mut j: usize = n;
    while j > i && char_is_whitespace(s.get_char(j - 1))
        invariant
            n == s@.len(),
            i <= j <= n,
            rest == s@.subrange(i as int, n as int),
            forall|k: int| j <= k < n ==> is_whitespace(#[trigger] s@[k]),
        decreases j,
    {
        j = j - 1;
    }
    proof {
        assert(trim_start(rest) == rest);
        assert forall|k: int| (j - i) <= k < rest.len() implies is_whitespace(#[trigger] rest[k]) by {
            assert(rest[k] == s@[k + i]);
        }
        lemma_trim_end_skip(rest, j - i);
        assert(rest.subrange(0, j - i) =~= s@.subrange(i as int, j as int));
        if j > i {
            assert(rest.subrange(0, j - i).last() == s@[j - 1]);
        }
    }
    let t = s.substring_char(i, j);
    assert forall|k: int| 0 <= k < t@.len() implies s@.contains(#[trigger] t@[k]) by {
        assert(s@[i + k] == t@[k]);
    }
    t
}

/// Splits `s` at the first `c`: the text before it and the text after it,
/// or nothing when `c` does not occur.
pub open spec fn split_first(s: Seq<char>, c: char) -> Option<(Seq<char>, Seq<char>)>
    decreases s.len(),
{
    if s.len() == 0 {
        None
    } else if s[0] == c {
        Some((Seq::<char>::empty(), s.drop_first()))
    } else {
        match split_first(s.drop_first(), c) {
            Some((a, b)) => Some((seq![s[0]] + a, b)),
            None => None,
        }
    }
}

/// `s` split at every `sep`, as `str::split` gives the pieces (an empty
/// text gives one empty piece).
pub open spec fn split_all(s: Seq<char>, sep: char) -> Seq<Seq<char>>
    decreases s.len(),
{
    if s.len() == 0 {
        seq![Seq::<char>::empty()]
    } else {
        let r = split_all(s.drop_last(), sep);
        if s.last() == sep {
            r.push(Seq::<char>::empty())
        } else {
            r.update(r.len() - 1, r.last().push(s.last()))
        }
    }
}

/// `split_all` gives at least one piece, and no piece holds the separator.
pub proof fn lemma_split_all(s: Seq<char>, sep: char)
    ensures
        split_all(s, sep).len() >= 1,
        forall|k: int| 0 <= k < split_all(s, sep).len() ==> !(#[trigger] split_all(s, sep)[k]).contains(sep),
    decreases s.len(),
{
    if s.len() > 0 {
        lemma_split_all(s.drop_last(), sep);
        let r = split_all(s.drop_last(), sep);
        if s.last() != sep {
            let l = r.last().push(s.last());
            assert forall|x: int| 0 <= x < l.len() implies l[x] != sep by {
                if x < r.last().len() {
                    assert(l[x] == r.last()[x]);
                    assert(r[r.len() - 1] == r.last());
                }
            }
        }
    }
}

/// Text without `sep` is one piece.
pub proof fn lemma_split_all_single(s: Seq<char>, sep: char)
    requires
        !s.contains(sep),
    ensures
        split_all(s, sep) == seq![s],
    decreases s.len(),
{
    if s.len() > 0 {
        let p = s.drop_last();
        assert(!p.contains(sep)) by {
            if p.contains(sep) {
                let i = choose|i: int| 0 <= i < p.len() && p[i] == sep;
                assert(s[i] == sep);
            }
        }
        lemma_split_all_single(p, sep);
        assert(s.last() == s[s.len() - 1]);
        assert(p.push(s.last()) =~= s);
        assert(split_all(s, sep) =~= seq![s]);
    } else {
        assert(s =~= Seq::<char>::empty());
    }
}

/// Text that neither starts nor ends with whitespace is its own trim.
pub proof fn lemma_trim_unchanged(s: Seq<char>)
    requires
        s.len() > 0 ==> !is_whitespace(s[0]) && !is_whitespace(s.last()),
    ensures
        trim(s) == s,
{
}

/// Splitting `a`, `c`, `b` at the first `c`, when `a` holds no `c`, gives
/// `a` and `b`.
pub proof fn lemma_split_first_at(a: Seq<char>, c: char, b: Seq<char>)
    requires
        !a.contains(c),
    ensures
        split_first(a + seq![c] + b, c) == Some((a, b)),
    decreases a.len(),
{
    let s = a + seq![c] + b;
    if a.len() == 0 {
        assert(s[0] == c);
        assert(s.drop_first() =~= b);
        assert(a =~= Seq::<char>::empty());
    } else {
        let a2 = a.drop_first();
        assert(!a2.contains(c)) by {
            if a2.contains(c) {
                let i = choose|i: int| 0 <= i < a2.len() && a2[i] == c;
                assert(a[i + 1] == c);
            }
        }
        lemma_split_first_at(a2, c, b);
        assert(s[0] == a[0]);
        assert(s[0] != c);
        assert(s.drop_first() =~= a2 + seq![c] + b);
        assert(seq![a[0]] + a2 =~= a);
    }
}

/// Splitting `a`, `sep`, `b` gives the pieces of `a` followed by the pieces
/// of `b`.
pub proof fn lemma_split_all_concat(a: Seq<char>, sep: char, b: Seq<char>)
    ensures
        split_all(a + seq![sep] + b, sep) == split_all(a, sep) + split_all(b, sep),
    decreases b.len(),
{
    let s = a + seq![sep] + b;
    lemma_split_all(a, sep);
    if b.len() == 0 {
        assert(s =~= a + seq![sep]);
        assert((a + seq![sep]).drop_last() =~= a);
        assert((a + seq![sep]).last() == sep);
        assert(split_all(b, sep) == seq![Seq::<char>::empty()]);
        assert(split_all(s, sep) =~= split_all(a, sep) + split_all(b, sep));
    } else {
        let b2 = b.drop_last();
        lemma_split_all_concat(a, sep, b2);
        lemma_split_all(b2, sep);
        assert(s.drop_last() =~= a + seq![sep] + b2);
        assert(s.last() == b.last());
        let ra = split_all(a, sep);
        let rb = split_all(b2, sep);
        let r = ra + rb;
        if b.last() == sep {
            assert(r.push(Seq::<char>::empty()) =~= ra + rb.push(Seq::<char>::empty()));
        } else {
            assert(r.last() == rb.last());
            assert(r.update(r.len() - 1, r.last().push(b.last()))
                =~= ra + rb.update(rb.len() - 1, rb.last().push(b.last())));
        }
    }
}

/// A number at least `10^k` has more than `k` digits.
pub proof fn lemma_digits_len_lower(n: nat, k: nat)
    requires
        n >= pow10(k),
    ensures
        digits(n).len() > k,
    decreases k,
{
    if k > 0 {
        assert(pow10(k) == 10 * pow10((k - 1) as nat));
        assert(pow10((k - 1) as nat) >= 1) by { lemma_pow10_positive((k - 1) as nat); }
        assert(n >= 10);
        assert(n / 10 >= pow10((k - 1) as nat));
        lemma_digits_len_lower(n / 10, (k - 1) as nat);
    } else {
        lemma_digits_read_back(n);
    }
}

/// Powers of ten are positive.
pub proof fn lemma_pow10_positive(k: nat)
    ensures
        pow10(k) >= 1,
    decreases k,
{
    if k > 0 {
        lemma_pow10_positive((k - 1) as nat);
    }
}

/// `format!("{:0w$}", x)` of a non-negative `x` is all digits, as long as
/// the wider of `w` and the digits of `x`, and reads back as `x`.
pub proof fn lemma_zero_padded_reads_back(x: int, w: nat)
    requires
        x >= 0,
    ensures
        zero_padded(x, w).len() == if w > digits(x as nat).len() { w } else { digits(x as nat).len() },
        forall|k: int| 0 <= k < zero_padded(x, w).len() ==> is_ascii_digit(#[trigger] zero_padded(x, w)[k]),
        digits_value(zero_padded(x, w)) == x,
        w <= digits(x as nat).len() ==> zero_padded(x, w) == digits(x as nat),
{
    let d = digits(x as nat);
    lemma_digits_read_back(x as nat);
    let fill: nat = if w > d.len() { (w - d.len()) as nat } else { 0 };
    let z = zeros(fill);
    let t = zero_padded(x, w);
    assert(t =~= z + d);
    lemma_zeros_value(fill);
    lemma_digits_value_concat(z, d);
    assert(digits_value(z) * pow10(d.len()) == 0);
    assert forall|k: int| 0 <= k < t.len() implies is_ascii_digit(#[trigger] t[k]) by {
        if k < z.len() {
            assert(t[k] == '0');
        } else {
            assert(t[k] == d[k - z.len()]);
        }
    }
    if w <= d.len() {
        assert(z =~= Seq::<char>::empty());
        assert(t =~= d);
    }
}

/// A run of zeros reads as zero.
pub proof fn lemma_zeros_value(n: nat)
    ensures
        digits_value(zeros(n)) == 0,
    decreases n,
{
    if n > 0 {
        lemma_zeros_value((n - 1) as nat);
        assert(zeros(n).drop_last() =~= zeros((n - 1) as nat));
        assert(zeros(n).last() == '0');
    } else {
        assert(zeros(n) =~= Seq::<char>::empty());
    }
}

/// Splits `s` at every `sep`.
pub fn split_str<'a>(s: &'a str, sep: char) -> (pieces: Vec<&'a str>)
    ensures
        pieces@.len() == split_all(s@, sep).len(),
        forall|k: int| 0 <= k < pieces@.len() ==> (#[trigger] pieces@[k])@ == split_all(s@, sep)[k],
{
    let n = s.unicode_len();
    let mut pieces: Vec<&'a str> = Vec::new();
    let mut start: usize = 0;
    let mut i: usize = 0;
    while i < n
        invariant
            n == s@.len(),
            start <= i <= n,
            split_all(s@.take(i as int), sep).len() == pieces@.len() + 1,
            forall|k: int| 0 <= k < pieces@.len() ==> (#[trigger] pieces@[k])@ == split_all(s@.take(i as int), sep)[k],
            split_all(s@.take(i as int), sep).last() == s@.subrange(start as int, i as int),
        decreases n - i,
    {
        let ghost prev = s@.take(i as int);
        assert(s@.take(i + 1).drop_last() =~= prev);
        assert(s@.take(i + 1).last() == s@[i as int]);
        if s.get_char(i) == sep {
            pieces.push(s.substring_char(start, i));
            start = i + 1;
            assert(s@.subrange(start as int, i + 1) =~= Seq::<char>::empty());
        } else {
            assert(s@.subrange(start as int, i + 1) =~= s@.subrange(start as int, i as int).push(s@[i as int]));
        }
        i = i + 1;
    }
    pieces.push(s.substring_char(start, n));
    assert(s@.take(n as int) =~= s@);
    pieces
}

/// Whether `a` and `b` hold the same characters.
pub fn str_equal(a: &str, b: &str) -> (r: bool)
    ensures
        r == (a@ == b@),
{
    let n = a.unicode_len();
    if n != b.unicode_len() {
        return false;
    }
    let mut i: usize = 0;
    while i < n
        invariant
            n == a@.len(),
            n == b@.len(),
            i <= n,
            forall|k: int| 0 <= k < i ==> a@[k] == b@[k],
        decreases n - i,
    {
        if a.get_char(i) != b.get_char(i) {
            return false;
        }
        i = i + 1;
    }
    assert(a@ =~= b@);
    true
}

} // verus!
