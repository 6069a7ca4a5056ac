//! Decimal numbers and small text operations on `str` and `String`.

use vstd::prelude::*;
use vstd::std_specs::iter::IteratorSpec;
use vstd::string::StringExecFns;

verus! {

broadcast use {vstd::string::axiom_spec_iter, vstd::string::next_postcondition};

/// The decimal digit for a value below ten.
pub open spec fn digit_char(d: nat) -> char {
    if d == 0 { '0' }
    else if d == 1 { '1' }
    else if d == 2 { '2' }
    else if d == 3 { '3' }
    else if d == 4 { '4' }
    else if d == 5 { '5' }
    else if d == 6 { '6' }
    else if d == 7 { '7' }
    else if d == 8 { '8' }
    else { '9' }
}

/// Whether a character is one of `0` to `9`.
pub open spec fn is_digit(c: char) -> bool {
    '0' <= c && c <= '9'
}

/// The value of a decimal digit.
pub open spec fn digit_value(c: char) -> nat
    recommends is_digit(c),
{
    (c as u32 - '0' as u32) as nat
}

/// The decimal text of `n`, without leading zeros.
pub open spec fn decimal_text(n: nat) -> Seq<char>
    decreases n,
{
    if n < 10 {
        seq![digit_char(n)]
    } else {
        decimal_text(n / 10).push(digit_char(n % 10))
    }
}

/// The decimal text of `n`, with a leading minus sign for a negative number.
pub open spec fn signed_text(n: int) -> Seq<char> {
    if n < 0 {
        "-"@ + decimal_text((-n) as nat)
    } else {
        decimal_text(n as nat)
    }
}

/// The number that a sequence of decimal digits denotes.
pub open spec fn digits_value(s: Seq<char>) -> nat
    decreases s.len(),
{
    if s.len() == 0 {
        0
    } else {
        10 * digits_value(s.drop_last()) + digit_value(s.last())
    }
}

pub open spec fn all_digits(s: Seq<char>) -> bool {
    forall|i: int| 0 <= i < s.len() ==> is_digit(#[trigger] s[i])
}

/// The number that a text denotes: an optional plus sign and then at least one
/// decimal digit, and nothing else.
pub open spec fn number_of(s: Seq<char>) -> Option<nat> {
    let digits = if s.len() > 0 && s[0] == '+' { s.drop_first() } else { s };
    if digits.len() > 0 && all_digits(digits) {
        Some(digits_value(digits))
    } else {
        None
    }
}

/// Whether two texts hold the same characters.
pub fn same_text(a: &str, b: &str) -> (same: bool)
    ensures
        same == (a@ == b@),
{
    let mut left = a.chars();
    let mut right = b.chars();
    let ghost mut seen: int = 0;
    loop
        invariant
            left.obeys_prophetic_iter_laws(),
            right.obeys_prophetic_iter_laws(),
            0 <= seen <= a@.len(),
            seen <= b@.len(),
            left.remaining() == a@.skip(seen),
            right.remaining() == b@.skip(seen),
            a@.take(seen) == b@.take(seen),
        decreases a@.len() - seen,
    {
        match (left.next(), right.next()) {
            (Some(x), Some(y)) => {
                if x != y {
                    assert(a@[seen] == x && b@[seen] == y);
                    return false;
                }
                proof {
                    assert(a@.take(seen + 1) =~= a@.take(seen).push(x));
                    assert(b@.take(seen + 1) =~= b@.take(seen).push(y));
                    assert(a@.skip(seen).drop_first() =~= a@.skip(seen + 1));
                    assert(b@.skip(seen).drop_first() =~= b@.skip(seen + 1));
                    seen = seen + 1;
                }
            }
            (None, None) => {
                assert(a@ =~= a@.take(seen));
                assert(b@ =~= b@.take(seen));
                return true;
            }
            _ => {
                assert(a@.len() != b@.len());
                return false;
            }
        }
    }
}

/// Whether `a` comes before `b` in the order of texts: character by character,
/// a text before its extensions.
pub open spec fn comes_before(a: Seq<char>, b: Seq<char>) -> bool
    decreases a.len(),
{
    if b.len() == 0 {
        false
    } else if a.len() == 0 {
        true
    } else if a[0] == b[0] {
        comes_before(a.drop_first(), b.drop_first())
    } else {
        a[0] < b[0]
    }
}

/// Whether `a` comes before `b` in the order of texts.
pub fn is_before(a: &str, b: &str) -> (before: bool)
    ensures
        before == comes_before(a@, b@),
{
    let mut left = a.chars();
    let mut right = b.chars();
    let ghost mut seen: int = 0;
    proof {
        assert(a@.skip(0) =~= a@);
        assert(b@.skip(0) =~= b@);
    }
    loop
        invariant
            left.obeys_prophetic_iter_laws(),
            right.obeys_prophetic_iter_laws(),
            0 <= seen <= a@.len(),
            seen <= b@.len(),
            left.remaining() == a@.skip(seen),
            right.remaining() == b@.skip(seen),
            comes_before(a@, b@) == comes_before(a@.skip(seen), b@.skip(seen)),
        decreases a@.len() - seen,
    {
        match (left.next(), right.next()) {
            (Some(x), Some(y)) => {
                if x != y {
                    return x < y;
                }
                proof {
                    assert(a@.skip(seen).drop_first() =~= a@.skip(seen + 1));
                    assert(b@.skip(seen).drop_first() =~= b@.skip(seen + 1));
                    seen = seen + 1;
                }
            }
            (None, Some(_)) => {
                return true;
            }
            (_, None) => {
                return false;
            }
        }
    }
}

/// The order of texts is strict and total: of two texts exactly one of these
/// holds: the first comes before the second, they are equal, or the second
/// comes before the first.
pub proof fn law_text_order_total(a: Seq<char>, b: Seq<char>)
    ensures
        comes_before(a, b) ==> a != b && !comes_before(b, a),
        a != b ==> comes_before(a, b) || comes_before(b, a),
    decreases a.len(),
{
    if a.len() > 0 && b.len() > 0 {
        if a[0] == b[0] {
            law_text_order_total(a.drop_first(), b.drop_first());
            if a.drop_first() == b.drop_first() {
                assert(a =~= seq![a[0]] + a.drop_first());
                assert(b =~= seq![b[0]] + b.drop_first());
            }
        }
    } else if a.len() == 0 && b.len() == 0 {
        assert(a =~= b);
    }
}

/// The order of texts is transitive.
pub proof fn law_text_order_transitive(a: Seq<char>, b: Seq<char>, c: Seq<char>)
    requires
        comes_before(a, b),
        comes_before(b, c),
    ensures
        comes_before(a, c),
    decreases a.len(),
{
    if a.len() > 0 && b.len() > 0 && c.len() > 0 && a[0] == b[0] && b[0] == c[0] {
        law_text_order_transitive(a.drop_first(), b.drop_first(), c.drop_first());
    }
}

/// The characters of a text.
pub fn chars_of(s: &str) -> (r: Vec<char>)
    ensures
        r@ == s@,
{
    let mut rest = s.chars();
    let mut r: Vec<char> = Vec::new();
    proof {
        assert(s@.skip(0) =~= s@);
    }
    loop
        invariant
            rest.obeys_prophetic_iter_laws(),
            r@.len() <= s@.len(),
            r@ == s@.take(r@.len() as int),
            rest.remaining() == s@.skip(r@.len() as int),
        decreases s@.len() - r@.len(),
    {
        let ghost seen = r@.len() as int;
        match rest.next() {
            Some(c) => {
                r.push(c);
                proof {
                    assert(s@.take(seen + 1) =~= s@.take(seen).push(c));
                    assert(s@.skip(seen).drop_first() =~= s@.skip(seen + 1));
                }
            }
            None => {
                assert(s@.take(seen) =~= s@);
                return r;
            }
        }
    }
}

/// Whether `part` stands in `s` from position `i` on.
pub open spec fn stands_at(part: Seq<char>, s: Seq<char>, i: int) -> bool {
    0 <= i && i + part.len() <= s.len() && s.subrange(i, i + part.len()) == part
}

/// Whether `part` occurs somewhere in `s`.
pub open spec fn occurs_in(part: Seq<char>, s: Seq<char>) -> bool {
    exists|i: int| stands_at(part, s, i)
}

/// Whether `part` occurs somewhere in `s`.
pub fn contains_text(s: &str, part: &str) -> (found: bool)
    ensures
        found == occurs_in(part@, s@),
{
    let all = chars_of(s);
    let wanted = chars_of(part);
    if wanted.len() > all.len() {
        return false;
    }
    let last: usize = all.len() - wanted.len();
    let mut i: usize = 0;
    loop
        invariant
            all@ == s@,
            wanted@ == part@,
            last == all@.len() - wanted@.len(),
            all@.len() <= usize::MAX,
            i <= last,
            forall|j: int| 0 <= j < i ==> !stands_at(part@, s@, j),
        decreases last - i,
    {
        let mut k: usize = 0;
        while k < wanted.len() && all[i + k] == wanted[k]
            invariant
                all@ == s@,
                wanted@ == part@,
                last == all@.len() - wanted@.len(),
                all@.len() <= usize::MAX,
                i <= last,
                k <= wanted@.len(),
                forall|j: int| 0 <= j < k ==> s@[i + j] == #[trigger] part@[j],
            decreases wanted@.len() - k,
        {
            k = k + 1;
        }
        if k == wanted.len() {
            assert(s@.subrange(i as int, i + part@.len()) =~= part@);
            assert(stands_at(part@, s@, i as int));
            return true;
        }
        assert(!stands_at(part@, s@, i as int)) by {
            if stands_at(part@, s@, i as int) {
                assert(s@.subrange(i as int, i + part@.len())[k as int] == part@[k as int]);
            }
        }
        if i == last {
            return false;
        }
        i = i + 1;
    }
}

fn digit_str(d: u64) -> (s: &'static str)
    requires
        d < 10,
    ensures
        s@ == seq![digit_char(d as nat)],
{
    proof {
        reveal_strlit("0");
        reveal_strlit("1");
        reveal_strlit("2");
        reveal_strlit("3");
        reveal_strlit("4");
        reveal_strlit("5");
        reveal_strlit("6");
        reveal_strlit("7");
        reveal_strlit("8");
        reveal_strlit("9");
    }
    let s = match d {
        0 => "0",
        1 => "1",
        2 => "2",
        3 => "3",
        4 => "4",
        5 => "5",
        6 => "6",
        7 => "7",
        8 => "8",
        _ => "9",
    };
    assert(s@ =~= seq![digit_char(d as nat)]);
    s
}

/// The decimal text of an unsigned number.
pub fn decimal(n: u64) -> (s: String)
    ensures
        s@ == decimal_text(n as nat),
    decreases n,
{
    if n < 10 {
        digit_str(n).to_string()
    } else {
        let mut s = decimal(n / 10);
        s.append(digit_str(n % 10));
        assert(s@ =~= decimal_text(n as nat));
        s
    }
}

/// The decimal text of a signed number.
pub fn signed_decimal(n: i32) -> (s: String)
    ensures
        s@ == signed_text(n as int),
{
    let wide: i64 = n as i64;
    if wide < 0 {
        let mut s = "-".to_string();
        s.append(decimal((-wide) as u64).as_str());
        s
    } else {
        decimal(wide as u64)
    }
}

proof fn digits_value_bounds(s: Seq<char>, k: int)
    requires
        0 <= k <= s.len(),
        all_digits(s),
    ensures
        digits_value(s.take(k)) <= digits_value(s),
    decreases s.len(),
{
    if k == s.len() {
        assert(s.take(k) =~= s);
    } else {
        assert(s.drop_last().take(k) =~= s.take(k));
        digits_value_bounds(s.drop_last(), k);
    }
}

/// Reads an unsigned number of at most `max` from the characters `from` to `to`:
/// an optional plus sign, then decimal digits. `None` where they are no such
/// number or denote one above `max`.
pub fn parse_chars(chars: &Vec<char>, from: usize, to: usize, max: u64) -> (r: Option<u64>)
    requires
        from <= to <= chars@.len(),
    ensures
        match number_of(chars@.subrange(from as int, to as int)) {
            Some(v) => if v <= max { r == Some(v as u64) } else { r is None },
            None => r is None,
        },
{
    let ghost all = chars@.subrange(from as int, to as int);
    let mut i: usize = from;
    if from < to && chars[from] == '+' {
        i = i + 1;
    }
    let ghost start = i;
    let ghost digits = chars@.subrange(start as int, to as int);
    proof {
        if from < to && chars@[from as int] == '+' {
            assert(all.drop_first() =~= digits);
        } else {
            assert(all =~= digits);
        }
    }
    if i == to {
        return None;
    }
    let mut value: u64 = 0;
    while i < to
        invariant
            from <= start <= i <= to <= chars@.len(),
            start < to,
            digits == chars@.subrange(start as int, to as int),
            number_of(all) == (if all_digits(digits) { Some(digits_value(digits)) } else { None }),
            all == chars@.subrange(from as int, to as int),
            all_digits(digits.take(i - start)),
            value == digits_value(digits.take(i - start)),
            value <= max,
        decreases to - i,
    {
        let c = chars[i];
        let ghost done = i - start;
        assert(digits[done] == c);
        if c < '0' || c > '9' {
            assert(!is_digit(digits[done]));
            return None;
        }
        let d: u64 = (c as u32 - '0' as u32) as u64;
        proof {
            assert(digits.take(done + 1).drop_last() =~= digits.take(done));
            if all_digits(digits) {
                digits_value_bounds(digits, done + 1);
            }
        }
        if value > (u64::MAX - d) / 10 || value * 10 + d > max {
            assert(digits_value(digits.take(done + 1)) > max) by {
                if value > (u64::MAX - d) / 10 {
                    assert(10 * value + d > u64::MAX) by (nonlinear_arith)
                        requires value > (u64::MAX - d) / 10, d < 10;
                }
            }
            return None;
        }
        value = value * 10 + d;
        assert(digits.take(done + 1) =~= digits.take(done).push(c));
        i = i + 1;
    }
    assert(digits.take(to - start) =~= digits);
    Some(value)
}

/// Reads an unsigned number of at most `max`: an optional plus sign, then
/// decimal digits. `None` where the text is no such number or denotes one
/// above `max`.
pub fn parse_decimal(s: &str, max: u64) -> (r: Option<u64>)
    ensures
        match number_of(s@) {
            Some(v) => if v <= max { r == Some(v as u64) } else { r is None },
            None => r is None,
        },
{
    let chars = chars_of(s);
    assert(chars@.subrange(0, chars@.len() as int) =~= s@);
    parse_chars(&chars, 0, chars.len(), max)
}

proof fn decimal_text_value(n: nat)
    ensures
        decimal_text(n).len() > 0,
        all_digits(decimal_text(n)),
        digits_value(decimal_text(n)) == n,
    decreases n,
{
    if n < 10 {
        assert(decimal_text(n).drop_last() =~= Seq::<char>::empty());
        assert(digits_value(Seq::<char>::empty()) == 0);
        assert(digit_value(digit_char(n)) == n);
    } else {
        decimal_text_value(n / 10);
        assert(decimal_text(n).drop_last() =~= decimal_text(n / 10));
        let d = n % 10;
        assert(digit_value(digit_char(d)) == d);
        assert(is_digit(digit_char(d)));
        assert(n == 10 * (n / 10) + d);
    }
}

/// Reading the decimal text of a number gives that number back.
pub proof fn law_decimal_round_trip(n: nat)
    ensures
        number_of(decimal_text(n)) == Some(n),
{
    decimal_text_value(n);
    assert(is_digit(decimal_text(n)[0]));
}

/// The order of texts is that of a dictionary: where two texts first differ, the smaller
/// character decides, and a text comes before its extensions.
pub proof fn law_text_order_is_that_of_a_dictionary(a: Seq<char>, b: Seq<char>, i: int)
    requires
        0 <= i <= a.len(),
        i <= b.len(),
        a.take(i) == b.take(i),
    ensures
        i < a.len() && i < b.len() && a[i] != b[i] ==> comes_before(a, b) == (a[i] < b[i]),
        i == a.len() && i < b.len() ==> comes_before(a, b),
        i == b.len() ==> !comes_before(a, b),
    decreases i,
{
    if i > 0 {
        assert(a[0] == a.take(i)[0]);
        assert(b[0] == b.take(i)[0]);
        assert(a.drop_first().take(i - 1) =~= a.take(i).drop_first());
        assert(b.drop_first().take(i - 1) =~= b.take(i).drop_first());
        law_text_order_is_that_of_a_dictionary(a.drop_first(), b.drop_first(), i - 1);
    }
}

/// A part occurs in every text that holds it, whatever stands before and after it, and
/// only in such texts.
pub proof fn law_part_occurs_where_it_stands(before: Seq<char>, part: Seq<char>, after: Seq<char>, s: Seq<char>)
    ensures
        occurs_in(part, before + part + after),
        occurs_in(part, s) ==> exists|i: int|
            0 <= i && i + part.len() <= s.len() && #[trigger] s.subrange(i, i + part.len()) == part,
{
    let whole = before + part + after;
    assert(whole.subrange(before.len() as int, before.len() as int + part.len()) =~= part);
    assert(stands_at(part, whole, before.len() as int));
    if occurs_in(part, s) {
        let i = choose|i: int| stands_at(part, s, i);
        assert(s.subrange(i, i + part.len()) == part);
    }
}

/// A text of digits denotes ten times what its digits but the last denote, and the last
/// digit. A plus sign in front changes nothing; anything else but digits, or no digit at
/// all, denotes no number.
pub proof fn law_digits_denote_a_number(s: Seq<char>, c: char)
    ensures
        number_of(Seq::empty()) is None,
        '0' <= c <= '9' ==> number_of(seq![c]) == Some((c as int - '0' as int) as nat),
        '0' <= c <= '9' && s.len() > 0 && s[0] != '+' && number_of(s) is Some ==> number_of(s.push(c)) == Some(
            (10 * number_of(s)->0 + (c as int - '0' as int)) as nat,
        ),
        s.len() > 0 && s[0] != '+' ==> number_of(seq!['+'] + s) == number_of(s),
        number_of(s) is Some ==> forall|i: int| 1 <= i < s.len() ==> '0' <= #[trigger] s[i] <= '9',
        number_of(s) is Some ==> s[0] == '+' || '0' <= s[0] <= '9',
{
    let one = seq![c];
    assert(one.drop_last() =~= Seq::<char>::empty());
    assert(digits_value(Seq::<char>::empty()) == 0);
    assert(s.push(c).drop_last() =~= s);
    assert((seq!['+'] + s).drop_first() =~= s);
    if '0' <= c <= '9' && s.len() > 0 && s[0] != '+' && number_of(s) is Some {
        assert(s.push(c)[0] == s[0]);
        assert(all_digits(s.push(c)));
    }
    if number_of(s) is Some {
        let digits = if s[0] == '+' { s.drop_first() } else { s };
        assert forall|i: int| 1 <= i < s.len() implies '0' <= #[trigger] s[i] <= '9' by {
            if s[0] == '+' {
                assert(is_digit(digits[i - 1]));
            } else {
                assert(is_digit(digits[i]));
            }
        }
        if s[0] != '+' {
            assert(is_digit(digits[0]));
        }
    }
}

/// The decimal text of a number consists of digits, without zeros in front, and that of a
/// number below zero has a minus sign in front of that of its amount.
pub proof fn law_decimal_text_is_plain(n: nat)
    ensures
        decimal_text(n).len() > 0,
        forall|i: int| 0 <= i < decimal_text(n).len() ==> '0' <= #[trigger] decimal_text(n)[i] <= '9',
        n > 0 ==> decimal_text(n)[0] != '0',
        n > 0 ==> signed_text(-n) == seq!['-'] + decimal_text(n),
        signed_text(n as int) == decimal_text(n),
    decreases n,
{
    reveal_strlit("-");
    assert("-"@ =~= seq!['-']);
    decimal_text_value(n);
    assert forall|i: int| 0 <= i < decimal_text(n).len() implies '0' <= #[trigger] decimal_text(n)[i] <= '9' by {
        assert(is_digit(decimal_text(n)[i]));
    }
    if n >= 10 {
        law_decimal_text_is_plain(n / 10);
        assert(decimal_text(n)[0] == decimal_text(n / 10)[0]);
    }
    if n > 0 {
        assert((-(-n)) as nat == n);
    }
}

} // verus!
