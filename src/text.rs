//! Decimal numerals: the text form of identifiers and numeric fields.
use vstd::prelude::*;

verus! {

/// Whether `c` is an ASCII decimal digit.
pub open spec fn is_digit(c: char) -> bool {
    '0' <= c && c <= '9'
}

/// The value of the digit `c`.
pub open spec fn digit_value(c: char) -> nat {
    (c as nat - '0' as nat) as nat
}

/// The value of a sequence of decimal digits, most significant first.
pub open spec fn digits_value(s: Seq<char>) -> nat
    decreases s.len(),
{
    if s.len() == 0 {
        0
    } else {
        digits_value(s.drop_last()) * 10 + digit_value(s.last())
    }
}

/// Whether `s` is a non-empty run of decimal digits.
pub open spec fn all_digits(s: Seq<char>) -> bool {
    s.len() > 0 && forall|i: int| 0 <= i < s.len() ==> is_digit(#[trigger] s[i])
}

/// The shortest decimal numeral of `n`.
pub open spec fn decimal(n: nat) -> Seq<char>
    decreases n,
{
    if n < 10 {
        seq![digit_char(n)]
    } else {
        decimal(n / 10).push(digit_char(n % 10))
    }
}

/// The digit character for a value below ten.
pub open spec fn digit_char(d: nat) -> char {
    if d == 0 {
        '0'
    } else if d == 1 {
        '1'
    } else if d == 2 {
        '2'
    } else if d == 3 {
        '3'
    } else if d == 4 {
        '4'
    } else if d == 5 {
        '5'
    } else if d == 6 {
        '6'
    } else if d == 7 {
        '7'
    } else if d == 8 {
        '8'
    } else {
        '9'
    }
}

/// The number that `s` spells in decimal, when it is a run of digits whose
/// value is at most `max`.
pub open spec fn parse_bounded(s: Seq<char>, max: nat) -> Option<nat> {
    if all_digits(s) && digits_value(s) <= max {
        Some(digits_value(s))
    } else {
        None
    }
}

/// The one-character text of the digit `d`.
fn digit_str(d: u64) -> (r: &'static str)
    requires
        d < 10,
    ensures
        r@ == seq![digit_char(d as nat)],
{
    proof {
        reveal_strlit("0");
        reveal_strlit("1");
        reveal_strlit("2");
        reveal_strlit("3");
        reveal_strlit("4");
        reveal_strlit("5");
        reveal_strlit("6");
        reveal_strlit("7");
        reveal_strlit("8");
        reveal_strlit("9");
    }
    match d {
        0 => "0",
        1 => "1",
        2 => "2",
        3 => "3",
        4 => "4",
        5 => "5",
        6 => "6",
        7 => "7",
        8 => "8",
        _ => "9",
    }
}

/// Appends the decimal numeral of `n` to `out`.
pub fn push_decimal(out: &mut String, n: u64)
    ensures
        final(out)@ == old(out)@ + decimal(n as nat),
    decreases n,
{
    if n < 10 {
        out.append(digit_str(n));
    } else {
        push_decimal(out, n / 10);
        out.append(digit_str(n % 10));
        proof {
            assert(decimal(n as nat) == decimal((n / 10) as nat).push(digit_char((n % 10) as nat)));
        }
    }
}

/// The decimal numeral of `n`.
pub fn decimal_string(n: u64) -> (r: String)
    ensures
        r@ == decimal(n as nat),
{
    let mut out = String::new();
    push_decimal(&mut out, n);
    proof {
        assert(out@ =~= decimal(n as nat));
    }
    out
}

/// The value of the decimal digit `c`, or None when `c` is not one.
fn digit_of(c: char) -> (r: Option<u64>)
    ensures
        r is Some <==> is_digit(c),
        r is Some ==> r->0 as nat == digit_value(c) && r->0 < 10,
{
    if '0' <= c && c <= '9' {
        Some((c as u32 - '0' as u32) as u64)
    } else {
        None
    }
}

proof fn lemma_digits_value_step(s: Seq<char>, i: int)
    requires
        0 <= i < s.len(),
    ensures
        digits_value(s.subrange(0, i + 1)) == digits_value(s.subrange(0, i)) * 10 + digit_value(s[i]),
{
    assert(s.subrange(0, i + 1).drop_last() =~= s.subrange(0, i));
}

proof fn lemma_digits_value_grows(s: Seq<char>, i: int)
    requires
        0 <= i <= s.len(),
    ensures
        digits_value(s.subrange(0, i)) <= digits_value(s),
    decreases s.len() - i,
{
    if i < s.len() {
        lemma_digits_value_step(s, i);
        lemma_digits_value_grows(s, i + 1);
    } else {
        assert(s.subrange(0, i) =~= s);
    }
}

/// The number that `s` spells in decimal, when it is a run of digits whose
/// value is at most `max`; None otherwise.
pub fn parse_decimal(s: &str, max: u64) -> (r: Option<u64>)
    ensures
        match parse_bounded(s@, max as nat) {
            Some(v) => r == Some(v as u64),
            None => r is None,
        },
{
    let n = s.unicode_len();
    if n == 0 {
        return None;
    }
    let mut acc: u64 = 0;
    let mut i: usize = 0;
    while i < n
        invariant
            n == s@.len(),
            0 <= i <= n,
            acc <= max,
            acc as nat == digits_value(s@.subrange(0, i as int)),
            forall|j: int| 0 <= j < i ==> is_digit(#[trigger] s@[j]),
        decreases n - i,
    {
        let c = s.get_char(i);
        match digit_of(c) {
            None => {
                return None;
            },
            Some(d) => {
                proof {
                    lemma_digits_value_step(s@, i as int);
                }
                if d > max || acc > (max - d) / 10 {
                    proof {
                        assert(acc * 10 + d > max) by (nonlinear_arith)
                            requires
                                d > max || acc > (max - d) / 10,
                                d <= 9,
                        ;
                        lemma_digits_value_grows(s@, i + 1);
                    }
                    return None;
                }
                proof {
                    assert(acc * 10 + d <= max) by (nonlinear_arith)
                        requires
                            d <= max,
                            acc <= (max - d) / 10,
                    ;
                }
                acc = acc * 10 + d;
                i = i + 1;
            },
        }
    }
    proof {
        assert(s@.subrange(0, n as int) =~= s@);
    }
    Some(acc)
}

/// The index of the first '.' in `t`.
pub open spec fn first_dot(t: Seq<char>) -> Option<nat>
    decreases t.len(),
{
    if t.len() == 0 {
        None
    } else if t[0] == '.' {
        Some(0)
    } else {
        match first_dot(t.drop_first()) {
            Some(i) => Some(i + 1),
            None => None,
        }
    }
}

/// The first four digits of a fraction, padded with zeros to four.
pub open spec fn pad4(f: Seq<char>) -> Seq<char>
    decreases 4 - f.len(),
{
    if f.len() >= 4 {
        f.take(4)
    } else {
        pad4(f.push('0'))
    }
}

/// The value in ten-thousandths of a decimal `int` or `int.frac`, where
/// fraction digits past the fourth are dropped; None for any other text.
pub open spec fn fixed4(t: Seq<char>) -> Option<nat> {
    match first_dot(t) {
        None => if all_digits(t) {
            Some(digits_value(t) * 10000)
        } else {
            None
        },
        Some(i) => {
            let a = t.take(i as int);
            let b = t.skip((i + 1) as int);
            if all_digits(a) && all_digits(b) {
                Some(digits_value(a) * 10000 + digits_value(pad4(b)))
            } else {
                None
            }
        },
    }
}

/// `n` ten-thousandths written as a decimal with four fraction digits.
pub open spec fn fixed4_text(n: nat) -> Seq<char> {
    decimal(n / 10000) + seq!['.'] + four_digits(n % 10000)
}

/// The four digits of a value below ten thousand, with leading zeros.
pub open spec fn four_digits(n: nat) -> Seq<char> {
    seq![
        digit_char(n / 1000),
        digit_char((n / 100) % 10),
        digit_char((n / 10) % 10),
        digit_char(n % 10),
    ]
}

/// Appends `n` ten-thousandths as a decimal with four fraction digits.
pub fn push_fixed4(out: &mut String, n: u32)
    ensures
        final(out)@ == old(out)@ + fixed4_text(n as nat),
{
    push_decimal(out, (n / 10000) as u64);
    out.append(".");
    let f = n % 10000;
    out.append(digit_str((f / 1000) as u64));
    out.append(digit_str(((f / 100) % 10) as u64));
    out.append(digit_str(((f / 10) % 10) as u64));
    out.append(digit_str((f % 10) as u64));
    proof {
        reveal_strlit(".");
        assert(final(out)@ =~= old(out)@ + fixed4_text(n as nat));
    }
}

proof fn lemma_first_dot(t: Seq<char>, i: int)
    requires
        0 <= i <= t.len(),
        forall|j: int| 0 <= j < i ==> t[j] != '.',
    ensures
        i == t.len() ==> first_dot(t) is None,
        i < t.len() && t[i] == '.' ==> first_dot(t) == Some(i as nat),
    decreases i,
{
    if i > 0 {
        lemma_first_dot(t.drop_first(), i - 1);
    }
}

proof fn lemma_pad4(f: Seq<char>, k: int)
    requires
        0 <= k <= 4,
        k <= f.len(),
        all_digits(f),
    ensures
        f.len() < 4 ==> digits_value(pad4(f)) == digits_value(f) * pow10((4 - f.len()) as nat),
        f.len() >= 4 ==> pad4(f) == f.take(4),
    decreases 4 - f.len(),
{
    if f.len() < 4 {
        let g = f.push('0');
        assert(g.drop_last() =~= f);
        assert(all_digits(g)) by {
            assert forall|j: int| 0 <= j < g.len() implies is_digit(#[trigger] g[j]) by {
                if j < f.len() {
                    assert(g[j] == f[j]);
                }
            }
        }
        lemma_pad4(g, k);
        if g.len() >= 4 {
            assert(g.take(4) =~= g);
        }
        assert(pow10((4 - f.len()) as nat) == 10 * pow10((4 - g.len()) as nat));
        assert(digits_value(f) * 10 * pow10((4 - g.len()) as nat) == digits_value(f) * (10 * pow10((4 - g.len()) as nat))) by (nonlinear_arith);
    }
}

proof fn lemma_pow10_4()
    ensures
        pow10(0) == 1,
        pow10(1) == 10,
        pow10(2) == 100,
        pow10(3) == 1000,
        pow10(4) == 10000,
{
    assert(pow10(1) == 10 * pow10(0));
    assert(pow10(2) == 10 * pow10(1));
    assert(pow10(3) == 10 * pow10(2));
    assert(pow10(4) == 10 * pow10(3));
}

/// Ten to the power `e`.
pub open spec fn pow10(e: nat) -> nat
    decreases e,
{
    if e == 0 {
        1
    } else {
        10 * pow10((e - 1) as nat)
    }
}

/// The value in ten-thousandths of the digits `b` taken as a fraction.
fn fraction4(b: &str) -> (r: Option<u64>)
    ensures
        all_digits(b@) ==> r == Some(digits_value(pad4(b@)) as u64) && digits_value(pad4(b@)) < 10000,
        !all_digits(b@) ==> r is None,
{
    let n = b.unicode_len();
    if n == 0 {
        return None;
    }
    let mut acc: u64 = 0;
    let mut i: usize = 0;
    while i < n
        invariant
            n == b@.len(),
            0 <= i <= n,
            forall|j: int| 0 <= j < i ==> is_digit(#[trigger] b@[j]),
            i <= 4 ==> acc as nat == digits_value(b@.subrange(0, i as int)),
            i > 4 ==> acc as nat == digits_value(b@.subrange(0, 4)),
            acc < pow10(if i <= 4 { i as nat } else { 4 }),
        decreases n - i,
    {
        proof {
            lemma_pow10_4();
        }
        let c = b.get_char(i);
        match digit_of(c) {
            None => {
                return None;
            },
            Some(d) => {
                if i < 4 {
                    proof {
                        lemma_digits_value_step(b@, i as int);
                        assert(pow10((i + 1) as nat) == 10 * pow10(i as nat));
                        assert(acc * 10 + d < 10 * pow10(i as nat)) by (nonlinear_arith)
                            requires
                                acc < pow10(i as nat),
                                d < 10,
                        ;
                        lemma_pow10_4();
                    }
                    acc = acc * 10 + d;
                }
                i = i + 1;
            },
        }
    }
    let ghost m: nat = if n <= 4 { n as nat } else { 4 };
    proof {
        lemma_pad4(b@, m as int);
        lemma_pow10_4();
        if n <= 4 {
            assert(b@.subrange(0, n as int) =~= b@);
            assert(digits_value(b@) * pow10(0) == digits_value(b@));
        } else {
            assert(b@.subrange(0, 4) =~= b@.take(4));
        }
    }
    let mut k: usize = if n < 4 {
        n
    } else {
        4
    };
    while k < 4
        invariant
            n == b@.len(),
            all_digits(b@),
            m == if n <= 4 { n as nat } else { 4 },
            m <= k <= 4,
            k == m || n < 4,
            n < 4 ==> acc as nat == digits_value(b@) * pow10((k - n) as nat),
            n >= 4 ==> acc as nat == digits_value(b@.take(4)),
            acc < pow10(k as nat),
        decreases 4 - k,
    {
        proof {
            lemma_pow10_4();
            assert(pow10((k + 1) as nat) == 10 * pow10(k as nat));
            assert(pow10((k + 1 - n) as nat) == 10 * pow10((k - n) as nat));
            assert(digits_value(b@) * (10 * pow10((k - n) as nat)) == digits_value(b@) * pow10((k - n) as nat) * 10) by (nonlinear_arith);
        }
        acc = acc * 10;
        k = k + 1;
    }
    proof {
        if n < 4 {
            assert((4 - n) as nat == (k - n) as nat);
        }
        lemma_pow10_4();
    }
    Some(acc)
}

/// The value in ten-thousandths of a decimal `int` or `int.frac` (fraction
/// digits past the fourth dropped), when it is at most `u32::MAX`.
pub fn parse_fixed4(t: &str) -> (r: Option<u32>)
    ensures
        match fixed4(t@) {
            Some(v) => if v <= u32::MAX {
                r == Some(v as u32)
            } else {
                r is None
            },
            None => r is None,
        },
{
    let n = t.unicode_len();
    let mut i: usize = 0;
    while i < n
        invariant
            n == t@.len(),
            0 <= i <= n,
            forall|j: int| 0 <= j < i ==> t@[j] != '.',
        ensures
            0 <= i <= n,
            forall|j: int| 0 <= j < i ==> t@[j] != '.',
            i < n ==> t@[i as int] == '.',
        decreases n - i,
    {
        if t.get_char(i) == '.' {
            break;
        }
        i = i + 1;
    }
    proof {
        lemma_first_dot(t@, i as int);
    }
    let whole = if i == n {
        t
    } else {
        t.substring_char(0, i)
    };
    let int_part = match parse_decimal(whole, (u32::MAX / 10000) as u64) {
        Some(v) => v,
        None => {
            proof {
                if i < n {
                    assert(whole@ =~= t@.take(i as int));
                    assert(t@.subrange(i + 1, n as int) =~= t@.skip(i + 1));
                }
                let dv = digits_value(whole@);
                if all_digits(whole@) {
                    assert(dv > 429496);
                    assert(dv * 10000 > u32::MAX) by (nonlinear_arith)
                        requires
                            dv > 429496,
                    ;
                    if i < n && all_digits(t@.skip(i + 1)) {
                        assert(dv * 10000 + digits_value(pad4(t@.skip(i + 1))) > u32::MAX);
                    }
                }
            }
            return None;
        },
    };
    if i == n {
        return Some((int_part * 10000) as u32);
    }
    let frac = match fraction4(t.substring_char(i + 1, n)) {
        Some(f) => f,
        None => {
            proof {
                assert(t@.subrange(i + 1, n as int) =~= t@.skip(i + 1));
                assert(whole@ =~= t@.take(i as int));
                assert(!all_digits(t@.skip(i + 1)));
            }
            return None;
        },
    };
    proof {
        assert(whole@ =~= t@.take(i as int));
        assert(t@.subrange(i + 1, n as int) =~= t@.skip(i + 1));
    }
    let v = int_part * 10000 + frac;
    if v > u32::MAX as u64 {
        return None;
    }
    Some(v as u32)
}

proof fn lemma_digit_char(d: nat)
    requires
        d < 10,
    ensures
        is_digit(digit_char(d)),
        digit_value(digit_char(d)) == d,
        digit_char(d) != '.',
{
    assert('0' as nat == 48);
    assert('9' as nat == 57);
    assert('.' as nat == 46);
    if d == 0 {
    } else if d == 1 {
        assert('1' as nat == 49);
    } else if d == 2 {
        assert('2' as nat == 50);
    } else if d == 3 {
        assert('3' as nat == 51);
    } else if d == 4 {
        assert('4' as nat == 52);
    } else if d == 5 {
        assert('5' as nat == 53);
    } else if d == 6 {
        assert('6' as nat == 54);
    } else if d == 7 {
        assert('7' as nat == 55);
    } else if d == 8 {
        assert('8' as nat == 56);
    }
}

/// A decimal numeral is a run of digits that spells its number.
pub proof fn lemma_decimal_digits(n: nat)
    ensures
        all_digits(decimal(n)),
        digits_value(decimal(n)) == n,
        forall|i: int| 0 <= i < decimal(n).len() ==> #[trigger] decimal(n)[i] != '.',
    decreases n,
{
    if n < 10 {
        lemma_digit_char(n);
        assert(decimal(n) =~= seq![digit_char(n)]);
        assert(decimal(n).drop_last() =~= Seq::<char>::empty());
        assert(digits_value(Seq::<char>::empty()) == 0);
        assert(digits_value(decimal(n)) == digits_value(decimal(n).drop_last()) * 10 + digit_value(decimal(n).last()));
    } else {
        lemma_digit_char(n % 10);
        lemma_decimal_digits(n / 10);
        let d = decimal(n / 10);
        assert(decimal(n) == d.push(digit_char(n % 10)));
        assert(decimal(n).drop_last() =~= d);
        assert(decimal(n).last() == digit_char(n % 10));
        assert(digits_value(decimal(n)) == digits_value(d) * 10 + digit_value(digit_char(n % 10)));
        assert(n == (n / 10) * 10 + n % 10);
        assert forall|i: int| 0 <= i < decimal(n).len() implies is_digit(#[trigger] decimal(n)[i]) by {
            if i < d.len() {
                assert(decimal(n)[i] == d[i]);
            }
        }
    }
}

/// Reading a decimal numeral of at most `max` gives its number back.
pub proof fn lemma_parse_decimal(n: nat, max: nat)
    requires
        n <= max,
    ensures
        parse_bounded(decimal(n), max) == Some(n),
{
    lemma_decimal_digits(n);
}

proof fn lemma_four_digits(r: nat)
    requires
        r < 10000,
    ensures
        all_digits(four_digits(r)),
        digits_value(four_digits(r)) == r,
        pad4(four_digits(r)) == four_digits(r),
{
    let f = four_digits(r);
    lemma_digit_char(r / 1000);
    lemma_digit_char((r / 100) % 10);
    lemma_digit_char((r / 10) % 10);
    lemma_digit_char(r % 10);
    assert(f.take(4) =~= f);
    assert(f.drop_last().drop_last().drop_last().drop_last() =~= Seq::<char>::empty());
    assert(f.drop_last().drop_last().drop_last() =~= seq![f[0]]);
    assert(f.drop_last().drop_last() =~= seq![f[0], f[1]]);
    assert(f.drop_last() =~= seq![f[0], f[1], f[2]]);
    let f3 = f.drop_last();
    let f2 = f3.drop_last();
    let f1 = f2.drop_last();
    let f0 = f1.drop_last();
    assert(digits_value(f0) == 0);
    assert(digits_value(f1) == digits_value(f0) * 10 + digit_value(f1.last()));
    assert(digits_value(f2) == digits_value(f1) * 10 + digit_value(f2.last()));
    assert(digits_value(f3) == digits_value(f2) * 10 + digit_value(f3.last()));
    assert(digits_value(f) == digits_value(f3) * 10 + digit_value(f.last()));
    assert(r == (r / 1000) * 1000 + ((r / 100) % 10) * 100 + ((r / 10) % 10) * 10 + r % 10) by (nonlinear_arith)
        requires
            r < 10000,
    ;
}

/// Reading the fixed-point text of `n` ten-thousandths gives `n` back.
pub proof fn lemma_fixed4_round_trip(n: nat)
    ensures
        fixed4(fixed4_text(n)) == Some(n),
{
    let q = n / 10000;
    let r = n % 10000;
    let d = decimal(q);
    let t = fixed4_text(n);
    lemma_decimal_digits(q);
    lemma_four_digits(r);
    assert(t =~= d + seq!['.'] + four_digits(r));
    assert forall|j: int| 0 <= j < d.len() implies t[j] != '.' by {
        assert(t[j] == d[j]);
    }
    lemma_first_dot(t, d.len() as int);
    assert(t.take(d.len() as int) =~= d);
    assert(t.skip((d.len() + 1) as int) =~= four_digits(r));
}

/// The number that `s` spells as an unsigned integer of at most `max`: an
/// optional `+` and a run of digits.
pub open spec fn unsigned_of(s: Seq<char>, max: nat) -> Option<nat> {
    if s.len() > 0 && s[0] == '+' {
        parse_bounded(s.drop_first(), max)
    } else {
        parse_bounded(s, max)
    }
}

/// The number that `s` spells as an unsigned integer of at most `max`, an
/// optional `+` and a run of digits; None otherwise.
pub fn parse_unsigned(s: &str, max: u64) -> (r: Option<u64>)
    ensures
        match unsigned_of(s@, max as nat) {
            Some(v) => r == Some(v as u64),
            None => r is None,
        },
{
    let n = s.unicode_len();
    if n > 0 && s.get_char(0) == '+' {
        let rest = s.substring_char(1, n);
        assert(rest@ =~= s@.drop_first());
        parse_decimal(rest, max)
    } else {
        parse_decimal(s, max)
    }
}

} // verus!
