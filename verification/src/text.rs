//! Small string helpers with exact specifications: equality of string slices,
//! concatenation, and the decimal rendering of integers that `Display` uses.
use vstd::prelude::*;

verus! {

/// The character for a decimal digit.
pub open spec fn digit_char(d: int) -> char {
    if d == 0 { '0' }
    else if d == 1 { '1' }
    else if d == 2 { '2' }
    else if d == 3 { '3' }
    else if d == 4 { '4' }
    else if d == 5 { '5' }
    else if d == 6 { '6' }
    else if d == 7 { '7' }
    else if d == 8 { '8' }
    else { '9' }
}

/// Decimal digits of a natural number, most significant first, without leading zeros.
pub open spec fn nat_decimal(n: nat) -> Seq<char>
    decreases n,
{
    if n < 10 {
        seq![digit_char(n as int)]
    } else {
        nat_decimal(n / 10) + seq![digit_char((n % 10) as int)]
    }
}

/// Decimal rendering of an integer, with a leading `-` for negative values.
pub open spec fn int_decimal(n: int) -> Seq<char> {
    if n < 0 {
        seq!['-'] + nat_decimal((-n) as nat)
    } else {
        nat_decimal(n as nat)
    }
}

/// The number a run of decimal digits stands for, most significant first.
pub open spec fn digits_value(s: Seq<char>) -> int
    decreases s.len(),
{
    if s.len() == 0 {
        0
    } else {
        10 * digits_value(s.drop_last()) + (s.last() as int - '0' as int)
    }
}

/// Whether every character is a decimal digit.
pub open spec fn is_digit_run(s: Seq<char>) -> bool {
    forall|i: int| 0 <= i < s.len() ==> '0' <= #[trigger] s[i] <= '9'
}

/// The digits of a decimal text: what follows a leading `-`, if any.
pub open spec fn decimal_digits(s: Seq<char>) -> Seq<char> {
    if s.len() > 0 && s[0] == '-' { s.drop_first() } else { s }
}

/// Whether `s` is the usual decimal text of an integer: an optional `-`,
/// then at least one digit, with no leading zero and no `-0`.
pub open spec fn is_canonical_decimal(s: Seq<char>) -> bool {
    let d = decimal_digits(s);
    &&& d.len() > 0
    &&& is_digit_run(d)
    &&& (d.len() > 1 ==> d[0] != '0')
    &&& (s.len() > 0 && s[0] == '-' ==> d[0] != '0')
}

/// The integer a decimal text reads as.
pub open spec fn decimal_value(s: Seq<char>) -> int {
    if s.len() > 0 && s[0] == '-' { -digits_value(s.drop_first()) } else { digits_value(s) }
}

proof fn lemma_digit_char(d: int)
    requires
        0 <= d < 10,
    ensures
        '0' <= digit_char(d) <= '9',
        digit_char(d) as int - '0' as int == d,
{
}

/// The digits of a natural number are digits, begin with no zero unless the
/// number is zero, and read back as the number.
pub proof fn lemma_nat_decimal(n: nat)
    ensures
        nat_decimal(n).len() > 0,
        is_digit_run(nat_decimal(n)),
        n > 0 ==> nat_decimal(n)[0] != '0',
        n == 0 ==> nat_decimal(n) == seq!['0'],
        digits_value(nat_decimal(n)) == n,
    decreases n,
{
    if n < 10 {
        lemma_digit_char(n as int);
        let s = nat_decimal(n);
        assert(s.drop_last() =~= Seq::<char>::empty());
        assert(digits_value(s.drop_last()) == 0);
        assert(s.last() == digit_char(n as int));
    } else {
        let q = (n / 10) as nat;
        let r = (n % 10) as int;
        lemma_nat_decimal(q);
        lemma_digit_char(r);
        let s = nat_decimal(n);
        assert(s == nat_decimal(q) + seq![digit_char(r)]);
        assert(s.drop_last() =~= nat_decimal(q));
        assert(s[0] == nat_decimal(q)[0]);
        assert forall|i: int| 0 <= i < s.len() implies '0' <= #[trigger] s[i] <= '9' by {
            if i < s.len() - 1 {
                assert(s[i] == nat_decimal(q)[i]);
            }
        }
        assert(s.last() == digit_char(r));
        assert(digits_value(s) == 10 * digits_value(nat_decimal(q)) + r);
        assert(n == 10 * q + r);
    }
}

/// The decimal rendering of an integer is its usual decimal text and reads
/// back as the integer.
pub proof fn lemma_int_decimal(n: int)
    ensures
        is_canonical_decimal(int_decimal(n)),
        decimal_value(int_decimal(n)) == n,
{
    if n < 0 {
        let m = (-n) as nat;
        lemma_nat_decimal(m);
        let s = int_decimal(n);
        assert(s.drop_first() =~= nat_decimal(m));
        assert(decimal_digits(s) == nat_decimal(m));
    } else {
        lemma_nat_decimal(n as nat);
        let s = nat_decimal(n as nat);
        assert(s[0] != '-') by {
            assert('0' <= s[0] <= '9');
        }
        assert(decimal_digits(s) == s);
    }
}

/// Rendering of a boolean: `true` or `false`.
pub open spec fn bool_text(b: bool) -> Seq<char> {
    if b { seq!['t', 'r', 'u', 'e'] } else { seq!['f', 'a', 'l', 's', 'e'] }
}

/// Whether two string slices hold the same characters.
pub fn str_equal(a: &str, b: &str) -> (r: bool)
    ensures
        r == (a@ == b@),
{
    let x = a.to_owned();
    let y = b.to_owned();
    x == y
}

/// A fresh `String` holding the characters of `s`.
pub fn owned(s: &str) -> (r: String)
    ensures
        r@ == s@,
{
    s.to_owned()
}

/// `a` followed by `b`, as a new `String`.
pub fn concat2(a: &str, b: &str) -> (r: String)
    ensures
        r@ == a@ + b@,
{
    let mut r = a.to_owned();
    r.append(b);
    r
}

/// `a`, `b` and `c` one after the other.
pub fn concat3(a: &str, b: &str, c: &str) -> (r: String)
    ensures
        r@ == a@ + b@ + c@,
{
    let mut r = a.to_owned();
    r.append(b);
    r.append(c);
    r
}

fn digit_string(d: u64) -> (s: String)
    requires
        d < 10,
    ensures
        s@ == seq![digit_char(d as int)],
{
    let lit = if d == 0 {
        proof { reveal_strlit("0"); }
        "0"
    } else if d == 1 {
        proof { reveal_strlit("1"); }
        "1"
    } else if d == 2 {
        proof { reveal_strlit("2"); }
        "2"
    } else if d == 3 {
        proof { reveal_strlit("3"); }
        "3"
    } else if d == 4 {
        proof { reveal_strlit("4"); }
        "4"
    } else if d == 5 {
        proof { reveal_strlit("5"); }
        "5"
    } else if d == 6 {
        proof { reveal_strlit("6"); }
        "6"
    } else if d == 7 {
        proof { reveal_strlit("7"); }
        "7"
    } else if d == 8 {
        proof { reveal_strlit("8"); }
        "8"
    } else {
        proof { reveal_strlit("9"); }
        "9"
    };
    lit.to_owned()
}

/// Decimal rendering of an unsigned integer.
pub fn u64_to_decimal(n: u64) -> (s: String)
    ensures
        s@ == nat_decimal(n as nat),
{
    let mut s = digit_string(n % 10);
    let mut m: u64 = n / 10;
    while m > 0
        invariant
            m > 0 ==> nat_decimal(n as nat) == nat_decimal(m as nat) + s@,
            m == 0 ==> nat_decimal(n as nat) == s@,
        decreases m,
    {
        let d = digit_string(m % 10);
        let ghost old_s = s@;
        s = d.concat(s.as_str());
        proof {
            if m >= 10 {
                assert(nat_decimal(m as nat) == nat_decimal((m / 10) as nat) + seq![digit_char((m % 10) as int)]);
                assert(nat_decimal((m / 10) as nat) + seq![digit_char((m % 10) as int)] + old_s
                    =~= nat_decimal((m / 10) as nat) + s@);
            }
        }
        m = m / 10;
    }
    s
}

/// Decimal rendering of a signed integer, as `Display` writes it.
pub fn i64_to_decimal(n: i64) -> (s: String)
    ensures
        s@ == int_decimal(n as int),
{
    if n < 0 {
        let wide: i128 = n as i128;
        let magnitude: u64 = (-wide) as u64;
        let digits = u64_to_decimal(magnitude);
        let minus = "-";
        proof { reveal_strlit("-"); }
        concat2(minus, digits.as_str())
    } else {
        u64_to_decimal(n as u64)
    }
}

/// Rendering of a boolean, as `Display` writes it.
pub fn bool_to_text(b: bool) -> (s: String)
    ensures
        s@ == bool_text(b),
{
    if b {
        proof { reveal_strlit("true"); }
        owned("true")
    } else {
        proof { reveal_strlit("false"); }
        owned("false")
    }
}

} // verus!
