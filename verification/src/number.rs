//! Decimal rendering of integers and decimal parsing of `usize`.

use vstd::prelude::*;

use crate::text::chars_of;

verus! {

/// The ASCII digit for `d`, for `d < 10`.
pub open spec fn digit_char(d: nat) -> char {
    if d == 0 {
        '0'
    } else if d == 1 {
        '1'
    } else if d == 2 {
        '2'
    } else if d == 3 {
        '3'
    } else if d == 4 {
        '4'
    } else if d == 5 {
        '5'
    } else if d == 6 {
        '6'
    } else if d == 7 {
        '7'
    } else if d == 8 {
        '8'
    } else {
        '9'
    }
}

/// Whether `c` is one of the ASCII digits `0` to `9`.
pub open spec fn is_digit(c: char) -> bool {
    48 <= c as u32 <= 57
}

/// The value of the ASCII digit `c`.
pub open spec fn digit_value(c: char) -> nat {
    (c as u32 - 48) as nat
}

/// The shortest decimal notation of `n`, as `to_string` writes it.
pub open spec fn decimal_spec(n: nat) -> Seq<char>
    decreases n,
{
    if n < 10 {
        seq![digit_char(n)]
    } else {
        decimal_spec(n / 10).push(digit_char(n % 10))
    }
}

/// The decimal notation of `i`, with a leading `-` when it is negative.
pub open spec fn signed_decimal_spec(i: int) -> Seq<char> {
    if i < 0 {
        seq!['-'] + decimal_spec((-i) as nat)
    } else {
        decimal_spec(i as nat)
    }
}

/// Whether every character of `s` is an ASCII digit.
pub open spec fn all_digits(s: Seq<char>) -> bool {
    forall|i: int| 0 <= i < s.len() ==> is_digit(#[trigger] s[i])
}

/// The number that the digits `s` denote.
pub open spec fn digits_value(s: Seq<char>) -> nat
    decreases s.len(),
{
    if s.len() == 0 {
        0
    } else {
        digits_value(s.drop_last()) * 10 + digit_value(s.last())
    }
}

/// `s` without the one `+` sign that may lead an unsigned number.
pub open spec fn unsigned_body(s: Seq<char>) -> Seq<char> {
    if s.len() > 0 && s[0] == '+' {
        s.drop_first()
    } else {
        s
    }
}

/// What `<usize as FromStr>::from_str` gives for `s`: an optional `+`, then
/// one or more ASCII digits whose value fits in a `usize`.
pub open spec fn parse_usize_spec(s: Seq<char>) -> Option<usize> {
    let b = unsigned_body(s);
    if b.len() > 0 && all_digits(b) && digits_value(b) <= usize::MAX {
        Some(digits_value(b) as usize)
    } else {
        None
    }
}

/// The one-character string of the digit `d`.
fn digit_str(d: u64) -> (r: &'static str)
    requires
        d < 10,
    ensures
        r@ == seq![digit_char(d as nat)],
{
    proof {
        reveal_strlit("0");
        reveal_strlit("1");
        reveal_strlit("2");
        reveal_strlit("3");
        reveal_strlit("4");
        reveal_strlit("5");
        reveal_strlit("6");
        reveal_strlit("7");
        reveal_strlit("8");
        reveal_strlit("9");
    }
    if d == 0 {
        "0"
    } else if d == 1 {
        "1"
    } else if d == 2 {
        "2"
    } else if d == 3 {
        "3"
    } else if d == 4 {
        "4"
    } else if d == 5 {
        "5"
    } else if d == 6 {
        "6"
    } else if d == 7 {
        "7"
    } else if d == 8 {
        "8"
    } else {
        "9"
    }
}

/// The decimal notation of `n`.
pub fn decimal(n: u64) -> (r: String)
    ensures
        r@ == decimal_spec(n as nat),
        is_decimal_notation_of(r@, n as nat),
{
    proof {
        lemma_decimal_is_notation(n as nat);
    }
    let mut m: u64 = n;
    let mut acc = String::new();
    loop
        invariant
            decimal_spec(n as nat) == decimal_spec(m as nat) + acc@,
            is_decimal_notation_of(decimal_spec(n as nat), n as nat),
        decreases m,
    {
        let d = m % 10;
        let next = String::from_str(digit_str(d)).concat(acc.as_str());
        if m < 10 {
            assert(next@ =~= decimal_spec(m as nat) + acc@);
            return next;
        }
        assert(decimal_spec(m as nat) + acc@ =~= decimal_spec((m / 10) as nat) + next@);
        acc = next;
        m = m / 10;
    }
}

/// The decimal notation of `i`, with a leading `-` when it is negative.
pub fn signed_decimal(i: i32) -> (r: String)
    ensures
        r@ == signed_decimal_spec(i as int),
        is_signed_decimal_notation_of(r@, i as int),
{
    proof {
        lemma_signed_decimal_is_notation(i as int);
    }
    if i < 0 {
        let magnitude: u64 = (0i64 - (i as i64)) as u64;
        proof {
            reveal_strlit("-");
        }
        String::from_str("-").concat(decimal(magnitude).as_str())
    } else {
        decimal(i as u64)
    }
}

proof fn lemma_digits_value_prefix(s: Seq<char>, k: int)
    requires
        0 <= k <= s.len(),
    ensures
        digits_value(s.take(k)) <= digits_value(s),
    decreases s.len(),
{
    if k < s.len() {
        lemma_digits_value_prefix(s.drop_last(), k);
        assert(s.drop_last().take(k) =~= s.take(k));
    } else {
        assert(s.take(k) =~= s);
    }
}

/// Parses `s` as `<usize as FromStr>::from_str` does; `None` where it
/// reports an error.
pub fn parse_usize(s: &str) -> (r: Option<usize>)
    ensures
        r == parse_usize_spec(s@),
{
    let chars = chars_of(s);
    let n = chars.len();
    let ghost sv = s@;
    let start: usize = if n > 0 && chars[0] == '+' {
        1
    } else {
        0
    };
    let ghost body = unsigned_body(sv);
    assert(body =~= sv.subrange(start as int, n as int));
    if start == n {
        return None;
    }
    let mut acc: usize = 0;
    let mut i: usize = start;
    while i < n
        invariant
            chars@ == sv,
            n == sv.len(),
            start <= i <= n,
            sv == s@,
            body == unsigned_body(sv),
            body == sv.subrange(start as int, n as int),
            acc as nat == digits_value(body.take(i - start)),
            all_digits(body.take(i - start)),
        decreases n - i,
    {
        let c = chars[i];
        let ghost k = i - start;
        assert(body.take(k + 1).drop_last() =~= body.take(k));
        assert(body[k] == c);
        assert(body.take(k + 1).last() == c);
        let x: u32 = c as u32;
        if !(48 <= x && x <= 57) {
            assert(!is_digit(body[k]));
            return None;
        }
        let d: usize = (x - 48) as usize;
        match acc.checked_mul(10) {
            None => {
                proof {
                    lemma_digits_value_prefix(body, k + 1);
                }
                return None;
            },
            Some(t) => match t.checked_add(d) {
                None => {
                    proof {
                        lemma_digits_value_prefix(body, k + 1);
                    }
                    return None;
                },
                Some(v) => {
                    acc = v;
                },
            },
        }
        i = i + 1;
    }
    assert(body.take(n - start) =~= body);
    Some(acc)
}

/// Reading back the decimal notation of a number that fits in a `usize`
/// gives that number.
pub proof fn lemma_parse_decimal_roundtrip(n: nat)
    requires
        n <= usize::MAX,
    ensures
        parse_usize_spec(decimal_spec(n)) == Some(n as usize),
{
    lemma_decimal_digits(n);
}

/// The decimal notation of `n` is a nonempty run of digits whose value is `n`.
pub proof fn lemma_decimal_digits(n: nat)
    ensures
        decimal_spec(n).len() > 0,
        all_digits(decimal_spec(n)),
        digits_value(decimal_spec(n)) == n,
    decreases n,
{
    if n < 10 {
        assert(decimal_spec(n).drop_last() =~= Seq::<char>::empty());
        assert(digits_value(Seq::<char>::empty()) == 0);
    } else {
        lemma_decimal_digits(n / 10);
        assert(decimal_spec(n).drop_last() =~= decimal_spec(n / 10));
    }
}


/// Whether `s` is the usual decimal notation of `n`: one or more ASCII
/// digits whose value is `n`, with no leading zero unless it is the only digit.
pub open spec fn is_decimal_notation_of(s: Seq<char>, n: nat) -> bool {
    &&& s.len() > 0
    &&& all_digits(s)
    &&& digits_value(s) == n
    &&& s.len() > 1 ==> s[0] != '0'
}

/// Whether `s` is the usual decimal notation of `i`: for a negative `i` a `-`
/// followed by the notation of its magnitude, else the notation of `i`.
pub open spec fn is_signed_decimal_notation_of(s: Seq<char>, i: int) -> bool {
    if i < 0 {
        s.len() > 0 && s[0] == '-' && is_decimal_notation_of(s.drop_first(), (-i) as nat)
    } else {
        is_decimal_notation_of(s, i as nat)
    }
}

proof fn lemma_decimal_no_leading_zero(n: nat)
    ensures
        decimal_spec(n).len() > 1 ==> n >= 10,
        n >= 1 ==> decimal_spec(n)[0] != '0',
    decreases n,
{
    lemma_decimal_digits(n);
    if n >= 10 {
        lemma_decimal_no_leading_zero(n / 10);
        lemma_decimal_digits(n / 10);
        assert(decimal_spec(n)[0] == decimal_spec(n / 10)[0]);
    }
}

/// `decimal_spec(n)` is the usual decimal notation of `n`.
pub proof fn lemma_decimal_is_notation(n: nat)
    ensures
        is_decimal_notation_of(decimal_spec(n), n),
{
    lemma_decimal_digits(n);
    lemma_decimal_no_leading_zero(n);
}

/// `signed_decimal_spec(i)` is the usual decimal notation of `i`.
pub proof fn lemma_signed_decimal_is_notation(i: int)
    ensures
        is_signed_decimal_notation_of(signed_decimal_spec(i), i),
{
    if i < 0 {
        lemma_decimal_is_notation((-i) as nat);
        assert((seq!['-'] + decimal_spec((-i) as nat)).drop_first() =~= decimal_spec((-i) as nat));
    } else {
        lemma_decimal_is_notation(i as nat);
    }
}


proof fn lemma_leading_zero_value(d: Seq<char>)
    ensures
        digits_value(seq!['0'] + d) == digits_value(d),
    decreases d.len(),
{
    if d.len() == 0 {
        assert((seq!['0'] + d).drop_last() =~= Seq::<char>::empty());
        assert(digits_value(Seq::<char>::empty()) == 0);
    } else {
        lemma_leading_zero_value(d.drop_last());
        assert((seq!['0'] + d).drop_last() =~= seq!['0'] + d.drop_last());
    }
}

/// How text reads as a `usize`: nothing is read from an empty text, from a
/// lone `+`, from a text with any character other than a digit after its
/// optional leading `+`, or from digits whose value exceeds `usize::MAX`; a
/// leading `+` and leading zeros do not change the number read; and the
/// usual decimal notation of a number that fits reads as that number.
pub proof fn law_parse_usize_reads_decimal(d: Seq<char>, s: Seq<char>, i: int, n: nat)
    ensures
        parse_usize_spec(Seq::empty()) is None,
        parse_usize_spec(seq!['+']) is None,
        0 <= i < s.len() && !is_digit(s[i]) && !(i == 0 && s[0] == '+') ==> parse_usize_spec(
            s,
        ) is None,
        all_digits(d) && digits_value(d) > usize::MAX ==> parse_usize_spec(d) is None,
        all_digits(d) && d.len() > 0 ==> parse_usize_spec(seq!['+'] + d) == parse_usize_spec(d),
        all_digits(d) && d.len() > 0 ==> parse_usize_spec(seq!['0'] + d) == parse_usize_spec(d),
        n <= usize::MAX ==> parse_usize_spec(decimal_spec(n)) == Some(n as usize),
{
    assert(seq!['+'].drop_first() =~= Seq::<char>::empty());
    if 0 <= i < s.len() && !is_digit(s[i]) && !(i == 0 && s[0] == '+') {
        let b = unsigned_body(s);
        if s.len() > 0 && s[0] == '+' {
            assert(b[i - 1] == s[i]);
        }
    }
    if all_digits(d) && d.len() > 0 {
        assert((seq!['+'] + d).drop_first() =~= d);
        lemma_leading_zero_value(d);
        let z = seq!['0'] + d;
        assert forall|k: int| 0 <= k < z.len() implies is_digit(#[trigger] z[k]) by {
            if k > 0 {
                assert(z[k] == d[k - 1]);
            }
        }
    }
    if n <= usize::MAX {
        lemma_parse_decimal_roundtrip(n);
    }
}

} // verus!
