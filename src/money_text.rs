use vstd::prelude::*;

use crate::money::Money;

verus! {

pub open spec fn is_digit(c: char) -> bool {
    '0' <= c && c <= '9'
}

pub open spec fn digit_value(c: char) -> int {
    c as int - '0' as int
}

pub open spec fn digit_char(d: int) -> char {
    (d + '0' as int) as char
}

/// The number written by the decimal digits `s`, most significant first.
pub open spec fn digits_value(s: Seq<char>) -> int
    decreases s.len(),
{
    if s.len() == 0 {
        0
    } else {
        digits_value(s.drop_last()) * 10 + digit_value(s.last())
    }
}

/// How many decimal digits `s` starts with.
pub open spec fn leading_digits(s: Seq<char>) -> nat
    decreases s.len(),
{
    if s.len() == 0 || !is_digit(s[0]) {
        0
    } else {
        1 + leading_digits(s.drop_first())
    }
}

pub open spec fn all_digits(s: Seq<char>) -> bool {
    forall|i: int| 0 <= i < s.len() ==> is_digit(#[trigger] s[i])
}

/// The value of the `i`th digit of `s`, or zero past its end.
pub open spec fn digit_at(s: Seq<char>, i: int) -> int {
    if i < s.len() {
        digit_value(s[i])
    } else {
        0
    }
}

/// The digits and the fraction digits of an unsigned decimal number: digits,
/// optionally followed by `.` and more digits, with at least one digit in all.
pub open spec fn unsigned_parts(u: Seq<char>) -> Option<(Seq<char>, Seq<char>)> {
    let k = leading_digits(u) as int;
    let rest = u.skip(k);
    if rest.len() == 0 {
        if k > 0 {
            Some((u.take(k), Seq::empty()))
        } else {
            None
        }
    } else if rest[0] == '.' && all_digits(rest.skip(1)) && (k > 0 || rest.len() > 1) {
        Some((u.take(k), rest.skip(1)))
    } else {
        None
    }
}

/// Cents of an unsigned decimal number, rounded to the nearest cent with halves up.
pub open spec fn unsigned_cents(whole: Seq<char>, frac: Seq<char>) -> int {
    digits_value(whole) * 100 + digit_at(frac, 0) * 10 + digit_at(frac, 1) + if digit_at(frac, 2)
        >= 5 {
        1int
    } else {
        0int
    }
}

/// `s` without one leading `$`, if it has one.
pub open spec fn strip_symbol(s: Seq<char>) -> Seq<char> {
    if s.len() > 0 && s[0] == '$' {
        s.drop_first()
    } else {
        s
    }
}

/// `t` without one leading sign, if it has one.
pub open spec fn strip_sign(t: Seq<char>) -> Seq<char> {
    if t.len() > 0 && (t[0] == '-' || t[0] == '+') {
        t.drop_first()
    } else {
        t
    }
}

/// The amount in cents that the text `s` writes, if it is money notation:
/// an optional `$`, an optional sign, then a decimal number. Halves of a cent
/// round away from zero.
pub open spec fn money_text_value(s: Seq<char>) -> Option<int> {
    let t = strip_symbol(s);
    let negative = t.len() > 0 && t[0] == '-';
    match unsigned_parts(strip_sign(t)) {
        Some((whole, frac)) => {
            let m = unsigned_cents(whole, frac);
            Some(if negative { -m } else { m })
        },
        None => None,
    }
}

/// Whether `v` cents can be held by a money value.
pub open spec fn fits_money(v: int) -> bool {
    i64::MIN <= v <= i64::MAX
}

/// The decimal digits of `n`, most significant first, without leading zeros.
pub open spec fn nat_digits(n: nat) -> Seq<char>
    decreases n,
{
    if n < 10 {
        seq![digit_char(n as int)]
    } else {
        nat_digits(n / 10).push(digit_char((n % 10) as int))
    }
}

/// Money notation of `c` cents: `$`, a `-` when negative, the whole units,
/// `.` and exactly two digits of cents.
pub open spec fn money_text(c: int) -> Seq<char> {
    let a = if c < 0 { -c } else { c };
    let sign = if c < 0 { seq!['-'] } else { Seq::empty() };
    seq!['$'] + sign + nat_digits((a / 100) as nat) + seq![
        '.',
        digit_char((a % 100) / 10),
        digit_char(a % 10),
    ]
}

/// Why a text is not a money amount.
#[derive(Debug, Clone, Copy, PartialEq, Eq, Structural)]
pub enum ParseMoneyError {
    /// The text is not money notation.
    Invalid,
    /// The amount is too large for a money value.
    OutOfRange,
}

proof fn lemma_leading_digits(u: Seq<char>, k: int)
    requires
        0 <= k <= u.len(),
        all_digits(u.take(k)),
        k == u.len() || !is_digit(u[k]),
    ensures
        leading_digits(u) == k,
    decreases k,
{
    if k > 0 {
        assert(is_digit(u.take(k)[0]));
        let v = u.drop_first();
        assert forall|i: int| 0 <= i < k - 1 implies is_digit(#[trigger] v.take(k - 1)[i]) by {
            assert(v.take(k - 1)[i] == u.take(k)[i + 1]);
        }
        if k < u.len() {
            assert(v[k - 1] == u[k]);
        }
        lemma_leading_digits(v, k - 1);
    }
}

proof fn lemma_digits_value_grows(s: Seq<char>, c: char)
    requires
        is_digit(c),
        digits_value(s) >= 0,
    ensures
        digits_value(s.push(c)) >= digits_value(s),
        digits_value(s.push(c)) == digits_value(s) * 10 + digit_value(c),
{
    assert(s.push(c).drop_last() =~= s);
}

/// Reads the digits of `s` from `start` on: where they end, and their value
/// unless it exceeds the largest money value.
fn scan_whole(s: &str, start: usize) -> (r: (usize, u128, bool))
    requires
        start <= s@.len(),
    ensures
        start <= r.0 <= s@.len(),
        leading_digits(s@.skip(start as int)) == r.0 - start,
        r.2 == (digits_value(s@.subrange(start as int, r.0 as int)) > 0x7fff_ffff_ffff_ffff),
        !r.2 ==> r.1 == digits_value(s@.subrange(start as int, r.0 as int)),
{
    let n = s.unicode_len();
    let ghost sv = s@;
    let mut i: usize = start;
    let mut whole: u128 = 0;
    let mut big = false;
    while i < n && is_digit_char(s.get_char(i))
        invariant
            start <= i <= n,
            n == sv.len(),
            sv == s@,
            all_digits(sv.subrange(start as int, i as int)),
            digits_value(sv.subrange(start as int, i as int)) >= 0,
            !big ==> whole == digits_value(sv.subrange(start as int, i as int)),
            !big ==> whole <= 0x7fff_ffff_ffff_ffff,
            big ==> digits_value(sv.subrange(start as int, i as int)) > 0x7fff_ffff_ffff_ffff,
        decreases n - i,
    {
        let c = s.get_char(i);
        let ghost prev = sv.subrange(start as int, i as int);
        proof {
            assert(sv.subrange(start as int, i + 1) =~= prev.push(c));
            lemma_digits_value_grows(prev, c);
        }
        if !big {
            let next = whole * 10 + digit_of(c);
            if next > 0x7fff_ffff_ffff_ffff {
                big = true;
            } else {
                whole = next;
            }
        }
        i = i + 1;
    }
    proof {
        let u = sv.skip(start as int);
        assert(u.take(i - start) =~= sv.subrange(start as int, i as int));
        if i < n {
            assert(u[i - start] == sv[i as int]);
        }
        lemma_leading_digits(u, i - start);
    }
    (i, whole, big)
}

/// The first three digits of `s` from `start` on (zero where there are
/// fewer), if all of it is digits.
fn scan_fraction(s: &str, start: usize) -> (r: Option<(u128, u128, u128)>)
    requires
        start <= s@.len(),
    ensures
        r is Some == all_digits(s@.skip(start as int)),
        r matches Some(d) ==> d.0 == digit_at(s@.skip(start as int), 0) && d.1 == digit_at(
            s@.skip(start as int),
            1,
        ) && d.2 == digit_at(s@.skip(start as int), 2),
{
    let n = s.unicode_len();
    let ghost sv = s@;
    let mut i: usize = start;
    let mut f0: u128 = 0;
    let mut f1: u128 = 0;
    let mut f2: u128 = 0;
    while i < n
        invariant
            start <= i <= n,
            n == sv.len(),
            sv == s@,
            all_digits(sv.subrange(start as int, i as int)),
            f0 == digit_at(sv.subrange(start as int, i as int), 0),
            f1 == digit_at(sv.subrange(start as int, i as int), 1),
            f2 == digit_at(sv.subrange(start as int, i as int), 2),
        decreases n - i,
    {
        let c = s.get_char(i);
        if !is_digit_char(c) {
            proof {
                let f = sv.skip(start as int);
                assert(f[i - start] == c);
            }
            return None;
        }
        let d = digit_of(c);
        if i - start == 0 {
            f0 = d;
        } else if i - start == 1 {
            f1 = d;
        } else if i - start == 2 {
            f2 = d;
        }
        proof {
            let prev = sv.subrange(start as int, i as int);
            assert(sv.subrange(start as int, i + 1) =~= prev.push(c));
        }
        i = i + 1;
    }
    proof {
        assert(sv.skip(start as int) =~= sv.subrange(start as int, n as int));
    }
    Some((f0, f1, f2))
}

/// Where the number of money notation starts in `s`, past one `$` and one
/// sign, and whether that sign is `-`.
fn scan_prefix(s: &str) -> (r: (usize, bool))
    ensures
        r.0 <= s@.len(),
        s@.skip(r.0 as int) == strip_sign(strip_symbol(s@)),
        r.1 == (strip_symbol(s@).len() > 0 && strip_symbol(s@)[0] == '-'),
{
    let n = s.unicode_len();
    let ghost sv = s@;
    let mut i: usize = 0;
    if i < n && s.get_char(0) == '$' {
        i = 1;
    }
    let ghost t = sv.skip(i as int);
    let mut negative = false;
    if i < n {
        let c = s.get_char(i);
        if c == '-' || c == '+' {
            negative = c == '-';
            i = i + 1;
        }
    }
    let ghost u = sv.skip(i as int);
    proof {
        if sv.len() > 0 && sv[0] == '$' {
            assert(t =~= sv.drop_first());
        } else {
            assert(t =~= sv);
        }
        if t.len() > 0 && (t[0] == '-' || t[0] == '+') {
            assert(u =~= t.drop_first());
        } else {
            assert(u =~= t);
        }
    }
    (i, negative)
}

impl Money {
    /// Reads money notation: an optional `$`, an optional `-` or `+`, then
    /// digits with an optional `.` and fraction digits (at least one digit in
    /// all). The amount is rounded to the nearest cent.
    pub fn parse(s: &str) -> (r: Result<Money, ParseMoneyError>)
        ensures
            money_text_value(s@) is None ==> r == Err::<Money, ParseMoneyError>(
                ParseMoneyError::Invalid,
            ),
            money_text_value(s@) is Some && !fits_money(money_text_value(s@).unwrap()) ==> r
                == Err::<Money, ParseMoneyError>(ParseMoneyError::OutOfRange),
            money_text_value(s@) is Some && fits_money(money_text_value(s@).unwrap()) ==> (r matches Ok(
                m,
            ) && m@ == money_text_value(s@).unwrap()),
    {
        let n = s.unicode_len();
        let ghost sv = s@;
        let (start, negative) = scan_prefix(s);
        let ghost u = sv.skip(start as int);
        let (end, whole, big) = scan_whole(s, start);
        let ghost k = end - start;
        proof {
            assert(u.take(k) =~= sv.subrange(start as int, end as int));
            assert(u.skip(k) =~= sv.skip(end as int));
        }
        let mut digits: (u128, u128, u128) = (0, 0, 0);
        if end < n {
            if s.get_char(end) != '.' {
                proof {
                    assert(u.skip(k)[0] == sv[end as int]);
                }
                return Err(ParseMoneyError::Invalid);
            }
            proof {
                assert(u.skip(k).skip(1) =~= sv.skip(end + 1));
            }
            match scan_fraction(s, end + 1) {
                None => {
                    return Err(ParseMoneyError::Invalid);
                },
                Some(d) => {
                    digits = d;
                },
            }
            if end == start && end + 1 == n {
                return Err(ParseMoneyError::Invalid);
            }
        } else if end == start {
            return Err(ParseMoneyError::Invalid);
        }
        proof {
            let frac = if end < n { u.skip(k).skip(1) } else { Seq::empty() };
            assert(unsigned_parts(u) == Some((u.take(k), frac)));
        }
        if big {
            return Err(ParseMoneyError::OutOfRange);
        }
        let mag: u128 = whole * 100 + digits.0 * 10 + digits.1 + if digits.2 >= 5 { 1 } else { 0 };
        if negative {
            if mag > 0x8000_0000_0000_0000 {
                return Err(ParseMoneyError::OutOfRange);
            }
            Ok(Money::new((0 - mag as i128) as i64))
        } else {
            if mag > 0x7fff_ffff_ffff_ffff {
                return Err(ParseMoneyError::OutOfRange);
            }
            Ok(Money::new(mag as i64))
        }
    }
}

proof fn lemma_digit_char(d: int)
    requires
        0 <= d < 10,
    ensures
        is_digit(digit_char(d)),
        digit_value(digit_char(d)) == d,
{
}

proof fn lemma_nat_digits(n: nat)
    ensures
        nat_digits(n).len() >= 1,
        all_digits(nat_digits(n)),
        digits_value(nat_digits(n)) == n,
    decreases n,
{
    if n < 10 {
        lemma_digit_char(n as int);
        assert(seq![digit_char(n as int)].drop_last() =~= Seq::<char>::empty());
        assert(digits_value(Seq::<char>::empty()) == 0);
        assert(digits_value(nat_digits(n)) == digit_value(digit_char(n as int)));
    } else {
        lemma_nat_digits(n / 10);
        lemma_digit_char((n % 10) as int);
        let s = nat_digits(n);
        assert(s.drop_last() =~= nat_digits(n / 10));
        assert(s.last() == digit_char((n % 10) as int));
        assert(digits_value(s) == (n / 10) * 10 + n % 10);
        assert forall|i: int| 0 <= i < s.len() implies is_digit(#[trigger] s[i]) by {
            if i < s.len() - 1 {
                assert(s[i] == nat_digits(n / 10)[i]);
            }
        }
    }
}

/// Reading back the money notation of an amount gives that amount.
pub proof fn lemma_text_round_trip(c: int)
    ensures
        money_text_value(money_text(c)) == Some(c),
{
    let a = if c < 0 { -c } else { c };
    let q = (a / 100) as nat;
    let d1 = (a % 100) / 10;
    let d2 = a % 10;
    lemma_nat_digits(q);
    lemma_digit_char(d1);
    lemma_digit_char(d2);
    let w = nat_digits(q);
    let tail = seq!['.', digit_char(d1), digit_char(d2)];
    let u = w + tail;
    let sign = if c < 0 { seq!['-'] } else { Seq::<char>::empty() };
    let s = money_text(c);
    assert(s == seq!['$'] + sign + w + tail);
    let t = strip_symbol(s);
    assert(t =~= sign + u);
    assert(strip_sign(t) =~= u) by {
        if c >= 0 {
            assert(t =~= u);
            assert(is_digit(w[0]));
        }
    }
    let k = w.len() as int;
    assert(u.take(k) =~= w);
    assert(u[k] == '.');
    lemma_leading_digits(u, k);
    assert(u.skip(k) =~= tail);
    let frac = tail.skip(1);
    assert(frac =~= seq![digit_char(d1), digit_char(d2)]);
    assert(all_digits(frac));
    assert(unsigned_parts(u) == Some((w, frac)));
    assert(digit_at(frac, 2) == 0);
    assert(unsigned_cents(w, frac) == a);
    assert((t.len() > 0 && t[0] == '-') == (c < 0));
}

fn push_digit(out: &mut String, d: u64)
    requires
        d < 10,
    ensures
        final(out)@ == old(out)@.push(digit_char(d as int)),
{
    let lit: &str = if d == 0 {
        proof { reveal_strlit("0"); }
        "0"
    } else if d == 1 {
        proof { reveal_strlit("1"); }
        "1"
    } else if d == 2 {
        proof { reveal_strlit("2"); }
        "2"
    } else if d == 3 {
        proof { reveal_strlit("3"); }
        "3"
    } else if d == 4 {
        proof { reveal_strlit("4"); }
        "4"
    } else if d == 5 {
        proof { reveal_strlit("5"); }
        "5"
    } else if d == 6 {
        proof { reveal_strlit("6"); }
        "6"
    } else if d == 7 {
        proof { reveal_strlit("7"); }
        "7"
    } else if d == 8 {
        proof { reveal_strlit("8"); }
        "8"
    } else {
        proof { reveal_strlit("9"); }
        "9"
    };
    assert(lit@ =~= seq![digit_char(d as int)]);
    out.append(lit);
}

fn push_digits(out: &mut String, n: u64)
    ensures
        final(out)@ == old(out)@ + nat_digits(n as nat),
    decreases n,
{
    if n >= 10 {
        push_digits(out, n / 10);
    }
    push_digit(out, n % 10);
    assert(final(out)@ =~= old(out)@ + nat_digits(n as nat));
}

impl Money {
    /// Money notation of the amount: `$`, a `-` when negative, the whole
    /// units, `.` and two digits of cents.
    pub fn to_text(&self) -> (r: String)
        ensures
            r@ == money_text(self@),
    {
        let a: u64 = if self.value() < 0 { (0 - self.value() as i128) as u64 } else { self.value() as u64 };
        let mut out = String::new();
        proof { reveal_strlit("$"); }
        out.append("$");
        if self.value() < 0 {
            proof { reveal_strlit("-"); }
            out.append("-");
        }
        push_digits(&mut out, a / 100);
        proof { reveal_strlit("."); }
        out.append(".");
        push_digit(&mut out, (a % 100) / 10);
        push_digit(&mut out, a % 10);
        proof {
            let sign = if self@ < 0 { seq!['-'] } else { Seq::<char>::empty() };
            assert(out@ =~= seq!['$'] + sign + nat_digits((a / 100) as nat) + seq![
                '.',
                digit_char(((a % 100) / 10) as int),
                digit_char((a % 10) as int),
            ]);
        }
        out
    }
}

impl core::str::FromStr for Money {
    type Err = ParseMoneyError;

    fn from_str(s: &str) -> Result<Money, ParseMoneyError> {
        Money::parse(s)
    }
}

fn is_digit_char(c: char) -> (r: bool)
    ensures
        r == is_digit(c),
{
    '0' <= c && c <= '9'
}

fn digit_of(c: char) -> (r: u128)
    requires
        is_digit(c),
    ensures
        r == digit_value(c),
        r < 10,
{
    (c as u32 - '0' as u32) as u128
}

} // verus!
