use vstd::prelude::*;

verus! {

/// Whether `c` is an ASCII decimal digit.
pub open spec fn is_digit(c: char) -> bool {
    '0' <= c && c <= '9'
}

/// The value of the decimal digit `c`.
pub open spec fn digit_value(c: char) -> int {
    c as int - '0' as int
}

/// The character of the decimal digit `d`.
pub open spec fn digit_char(d: int) -> char {
    (d + '0' as int) as char
}

/// Whether `s` is a non-empty run of decimal digits.
pub open spec fn all_digits(s: Seq<char>) -> bool {
    s.len() > 0 && forall|i: int| 0 <= i < s.len() ==> is_digit(#[trigger] s[i])
}

/// The value of a run of decimal digits, most significant first.
pub open spec fn digits_value(s: Seq<char>) -> int
    decreases s.len(),
{
    if s.len() == 0 {
        0
    } else {
        digits_value(s.drop_last()) * 10 + digit_value(s.last())
    }
}

/// The integer written by `s`: an optional `+` or `-` sign followed by one or
/// more decimal digits.
pub open spec fn int_value(s: Seq<char>) -> Option<int> {
    if s.len() > 0 && s[0] == '-' && all_digits(s.skip(1)) {
        Some(-digits_value(s.skip(1)))
    } else if s.len() > 0 && s[0] == '+' && all_digits(s.skip(1)) {
        Some(digits_value(s.skip(1)))
    } else if all_digits(s) {
        Some(digits_value(s))
    } else {
        None
    }
}

/// The shortest decimal digits of `n`.
pub open spec fn digits_of(n: nat) -> Seq<char>
    decreases n,
{
    if n < 10 {
        seq![digit_char(n as int)]
    } else {
        digits_of(n / 10).push(digit_char(n as int % 10))
    }
}

/// The decimal text of `v`: a `-` for a negative value, then its digits.
pub open spec fn int_text(v: int) -> Seq<char> {
    if v < 0 {
        seq!['-'] + digits_of((-v) as nat)
    } else {
        digits_of(v as nat)
    }
}

/// Whether two strings hold the same characters.
pub(crate) fn text_eq(a: &str, b: &str) -> (r: bool)
    ensures
        r == (a@ == b@),
{
    a.to_owned() == b.to_owned()
}

/// Relies on `str::parse::<i32>`: accepts an optional sign and one or more
/// decimal digits whose value fits in an `i32`, and rejects anything else.
#[verifier::external_body]
pub(crate) fn parse_i32(s: &str) -> (r: Option<i32>)
    ensures
        match int_value(s@) {
            Some(v) => if i32::MIN <= v <= i32::MAX {
                r == Some(v as i32)
            } else {
                r is None
            },
            None => r is None,
        },
{
    s.parse::<i32>().ok()
}

/// Relies on `i32::to_string`: a `-` for a negative value, then the shortest
/// decimal digits.
#[verifier::external_body]
pub(crate) fn format_i32(v: i32) -> (r: String)
    ensures
        r@ == int_text(v as int),
{
    v.to_string()
}

proof fn lemma_digits_of(n: nat)
    ensures
        all_digits(digits_of(n)),
        digits_value(digits_of(n)) == n,
    decreases n,
{
    if n >= 10 {
        lemma_digits_of(n / 10);
        let d = digits_of(n / 10);
        let e = d.push(digit_char(n as int % 10));
        assert(e.drop_last() =~= d);
        assert forall|i: int| 0 <= i < e.len() implies is_digit(#[trigger] e[i]) by {
            if i < d.len() {
                assert(e[i] == d[i]);
            }
        }
        assert(digit_value(digit_char(n as int % 10)) == n as int % 10);
        assert(n == (n / 10) * 10 + n % 10);
        assert(digits_of(n) == e);
        assert(e.last() == digit_char(n as int % 10));
        assert(digits_value(e) == digits_value(d) * 10 + digit_value(e.last()));
    } else {
        assert(digit_value(digit_char(n as int)) == n);
        assert(digits_of(n).drop_last() =~= Seq::<char>::empty());
        assert(digits_value(digits_of(n)) == digits_value(Seq::<char>::empty()) * 10 + digit_value(digits_of(n).last()));
    }
}

/// Reading back the decimal text of an integer gives that integer.
pub proof fn lemma_int_text_round_trip(v: int)
    ensures
        int_value(int_text(v)) == Some(v),
{
    if v < 0 {
        let d = digits_of((-v) as nat);
        lemma_digits_of((-v) as nat);
        assert((seq!['-'] + d).skip(1) =~= d);
    } else {
        lemma_digits_of(v as nat);
        let d = digits_of(v as nat);
        assert(is_digit(d[0]));
    }
}

} // verus!
