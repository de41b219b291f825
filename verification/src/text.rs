use vstd::prelude::*;

verus! {

/// The character of decimal digit `d`.
pub open spec fn digit_char(d: int) -> char {
    ('0' as int + d) as char
}

/// The decimal digits of `n`, most significant first, without leading zeros.
pub open spec fn digits(n: nat) -> Seq<char>
    decreases n,
{
    if n < 10 {
        seq![digit_char(n as int)]
    } else {
        digits(n / 10).push(digit_char((n % 10) as int))
    }
}

/// `n` written in decimal, with a minus sign where it is negative: what
/// `to_string` and `{}` make of an integer.
pub open spec fn decimal(n: int) -> Seq<char> {
    if n < 0 {
        seq!['-'] + digits((-n) as nat)
    } else {
        digits(n as nat)
    }
}

/// Each character of `s` as a string of its own.
pub open spec fn char_strings(s: Seq<char>) -> Seq<Seq<char>> {
    s.map_values(|c: char| seq![c])
}

fn digit_str(d: u64) -> (r: &'static str)
    requires
        d < 10,
    ensures
        r@ == seq![digit_char(d as int)],
{
    proof {
        reveal_strlit("0");
        reveal_strlit("1");
        reveal_strlit("2");
        reveal_strlit("3");
        reveal_strlit("4");
        reveal_strlit("5");
        reveal_strlit("6");
        reveal_strlit("7");
        reveal_strlit("8");
        reveal_strlit("9");
    }
    let r = if d == 0 {
        "0"
    } else if d == 1 {
        "1"
    } else if d == 2 {
        "2"
    } else if d == 3 {
        "3"
    } else if d == 4 {
        "4"
    } else if d == 5 {
        "5"
    } else if d == 6 {
        "6"
    } else if d == 7 {
        "7"
    } else if d == 8 {
        "8"
    } else {
        "9"
    };
    assert(r@ =~= seq![digit_char(d as int)]);
    r
}

fn append_digits(s: &mut String, n: u64)
    ensures
        final(s)@ == old(s)@ + digits(n as nat),
    decreases n,
{
    if n >= 10 {
        append_digits(s, n / 10);
    }
    s.append(digit_str(n % 10));
    assert(final(s)@ =~= old(s)@ + digits(n as nat)) by {
        if n >= 10 {
            assert(digits(n as nat) == digits((n / 10) as nat).push(digit_char((n % 10) as int)));
        }
    }
}

/// `n` in decimal.
pub fn decimal_string(n: i64) -> (r: String)
    ensures
        r@ == decimal(n as int),
{
    let mut s = String::new();
    if n < 0 {
        s.append("-");
        proof {
            reveal_strlit("-");
        }
        let magnitude = (-(n as i128)) as u64;
        append_digits(&mut s, magnitude);
        assert(s@ =~= decimal(n as int));
    } else {
        append_digits(&mut s, n as u64);
        assert(s@ =~= decimal(n as int));
    }
    s
}

/// `prefix` followed by `n` in decimal, as `format!("{prefix}{n}")` writes it.
pub fn with_number(prefix: &str, n: i64) -> (r: String)
    ensures
        r@ == prefix@ + decimal(n as int),
{
    let mut s = String::from_str(prefix);
    let d = decimal_string(n);
    s.append(d.as_str());
    s
}

/// Each character of `s` as a string of its own, in order.
pub fn chars_as_strings(s: &str) -> (r: Vec<String>)
    ensures
        r@.map_values(|x: String| x@) == char_strings(s@),
{
    let n = s.unicode_len();
    let mut out: Vec<String> = Vec::new();
    let mut i: usize = 0;
    while i < n
        invariant
            i <= n,
            n == s@.len(),
            out@.map_values(|x: String| x@) == char_strings(s@).take(i as int),
        decreases n - i,
    {
        let piece = s.substring_char(i, i + 1);
        let one = String::from_str(piece);
        let ghost prev = out@;
        out.push(one);
        assert(one@ =~= seq![s@[i as int]]);
        assert(out@ == prev.push(one));
        assert(out@.map_values(|x: String| x@) =~= prev.map_values(|x: String| x@).push(one@));
        assert(char_strings(s@).take(i + 1) =~= char_strings(s@).take(i as int).push(seq![s@[i as int]]));
        i = i + 1;
    }
    assert(char_strings(s@).take(n as int) =~= char_strings(s@));
    out
}

/// The number that a string of decimal digits stands for.
pub open spec fn digits_value(s: Seq<char>) -> int
    decreases s.len(),
{
    if s.len() == 0 {
        0
    } else {
        digits_value(s.drop_last()) * 10 + (s.last() as int - '0' as int)
    }
}

/// The digits of `n` are decimal digits, stand for `n`, and begin with no
/// zero unless `n` is zero itself.
pub proof fn lemma_digits_stand_for_number(n: nat)
    ensures
        digits_value(digits(n)) == n,
        forall|i: int| 0 <= i < digits(n).len() ==> '0' <= #[trigger] digits(n)[i] <= '9',
        digits(n).len() >= 1,
        digits(n)[0] == '0' ==> n == 0,
    decreases n,
{
    assert(digit_char((n % 10) as int) as int == '0' as int + n % 10);
    if n < 10 {
        assert(digits(n).drop_last() =~= Seq::<char>::empty());
        assert(digits_value(digits(n).drop_last()) == 0);
        assert(digits(n).last() == digit_char(n as int));
        assert(digits_value(digits(n)) == n);
    }
    if n >= 10 {
        lemma_digits_stand_for_number(n / 10);
        let d = digits(n);
        assert(d.drop_last() =~= digits(n / 10));
        assert(d.last() == digit_char((n % 10) as int));
        assert((n / 10) * 10 + n % 10 == n) by (nonlinear_arith);
        assert(d[0] == digits(n / 10)[0]);
        assert(digits_value(d) == digits_value(d.drop_last()) * 10 + (d.last() as int - '0' as int));
        assert(digits_value(d) == (n / 10) * 10 + n % 10);
    }
}

/// `n` in decimal is its digits, after a minus sign exactly where it is
/// negative.
pub proof fn lemma_decimal_stands_for_number(n: int)
    ensures
        n >= 0 ==> digits_value(decimal(n)) == n && decimal(n)[0] != '-',
        n < 0 ==> decimal(n)[0] == '-' && digits_value(decimal(n).drop_first()) == -n,
{
    if n >= 0 {
        lemma_digits_stand_for_number(n as nat);
    } else {
        lemma_digits_stand_for_number((-n) as nat);
        assert(decimal(n).drop_first() =~= digits((-n) as nat));
    }
}

} // verus!
