use vstd::prelude::*;

verus! {

/// The character of a decimal digit `d` (`0 <= d < 10`).
pub open spec fn digit_char(d: nat) -> char {
    (48 + d) as char
}

/// The decimal representation of `n`, most significant digit first, without
/// leading zeros (`0` is written `"0"`).
pub open spec fn decimal_digits(n: nat) -> Seq<char>
    decreases n,
{
    if n < 10 {
        seq![digit_char(n)]
    } else {
        decimal_digits(n / 10) + seq![digit_char(n % 10)]
    }
}

/// The number that a sequence of decimal digit characters denotes.
pub open spec fn digits_value(s: Seq<char>) -> int
    decreases s.len(),
{
    if s.len() == 0 {
        0
    } else {
        digits_value(s.drop_last()) * 10 + (s.last() as int - 48)
    }
}

proof fn lemma_digit_char_value(d: nat)
    requires
        d < 10,
    ensures
        digit_char(d) as int == 48 + d,
        '0' <= digit_char(d) <= '9',
{
}

/// Writing `n` in decimal and reading the digits back gives `n`; every
/// character is a digit and the first is not `0` unless `n` is `0`.
pub proof fn lemma_decimal_roundtrip(n: nat)
    ensures
        digits_value(decimal_digits(n)) == n,
        decimal_digits(n).len() >= 1,
        forall|i: int|
            0 <= i < decimal_digits(n).len() ==> '0' <= #[trigger] decimal_digits(n)[i] <= '9',
        n >= 10 ==> decimal_digits(n)[0] != '0',
    decreases n,
{
    lemma_digit_char_value((n % 10) as nat);
    if n < 10 {
        assert(decimal_digits(n) =~= seq![digit_char(n)]);
        assert(seq![digit_char(n)].drop_last() =~= Seq::<char>::empty());
        assert(digits_value(Seq::<char>::empty()) == 0);
        assert(n % 10 == n);
        assert(digits_value(seq![digit_char(n)]) == n);
    } else {
        lemma_decimal_roundtrip(n / 10);
        let d = decimal_digits(n);
        let p = decimal_digits(n / 10);
        assert(d =~= p + seq![digit_char(n % 10)]);
        assert(d.drop_last() =~= p);
        assert(d.last() == digit_char(n % 10));
        assert(digits_value(d) == digits_value(p) * 10 + (n % 10));
        assert((n / 10) * 10 + n % 10 == n);
        assert forall|i: int| 0 <= i < d.len() implies '0' <= #[trigger] d[i] <= '9' by {
            if i < p.len() {
                assert(d[i] == p[i]);
            }
        }
        if n / 10 >= 10 {
            assert(d[0] == p[0]);
        } else {
            assert(d[0] == p[0]);
            assert(p[0] == digit_char(n / 10));
        }
    }
}

/// The one-character string of the decimal digit `d`.
fn digit_str(d: usize) -> (s: &'static str)
    requires
        d < 10,
    ensures
        s@ == seq![digit_char(d as nat)],
{
    proof {
        reveal_strlit("0");
        reveal_strlit("1");
        reveal_strlit("2");
        reveal_strlit("3");
        reveal_strlit("4");
        reveal_strlit("5");
        reveal_strlit("6");
        reveal_strlit("7");
        reveal_strlit("8");
        reveal_strlit("9");
    }
    let s = if d == 0 {
        "0"
    } else if d == 1 {
        "1"
    } else if d == 2 {
        "2"
    } else if d == 3 {
        "3"
    } else if d == 4 {
        "4"
    } else if d == 5 {
        "5"
    } else if d == 6 {
        "6"
    } else if d == 7 {
        "7"
    } else if d == 8 {
        "8"
    } else {
        "9"
    };
    assert(s@ =~= seq![digit_char(d as nat)]);
    s
}

/// Appends the decimal representation of `n` to `s`.
pub fn push_decimal(s: &mut String, n: usize)
    ensures
        final(s)@ == old(s)@ + decimal_digits(n as nat),
    decreases n,
{
    if n >= 10 {
        push_decimal(s, n / 10);
    }
    let d = digit_str(n % 10);
    s.append(d);
    assert(final(s)@ =~= old(s)@ + decimal_digits(n as nat)) by {
        if n >= 10 {
            assert(decimal_digits(n as nat) =~= decimal_digits((n / 10) as nat) + seq![
                digit_char((n % 10) as nat),
            ]);
        }
    }
}

/// The decimal representation of `n` as a string.
pub fn decimal_string(n: usize) -> (s: String)
    ensures
        s@ == decimal_digits(n as nat),
{
    let mut s = String::new();
    push_decimal(&mut s, n);
    assert(s@ =~= decimal_digits(n as nat));
    s
}

} // verus!
