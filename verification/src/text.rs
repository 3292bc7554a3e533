//! Texts: their order, and numbers written in decimal.

use vstd::prelude::*;
#[allow(unused_imports)]
use vstd::string::{StrSliceExecFns, StringExecFns};

verus! {

/// The character of a decimal digit.
pub open spec fn digit(n: int) -> char {
    (('0' as int) + n) as char
}

/// A number below 100 in two digits.
pub open spec fn two_digits(n: int) -> Seq<char> {
    seq![digit(n / 10), digit(n % 10)]
}

/// A number below 10000 in four digits.
pub open spec fn four_digits(n: int) -> Seq<char> {
    seq![digit(n / 1000), digit(n / 100 % 10), digit(n / 10 % 10), digit(n % 10)]
}

/// A number in decimal, without leading zeros.
pub open spec fn decimal(n: nat) -> Seq<char>
    decreases n,
{
    if n < 10 {
        seq![digit(n as int)]
    } else {
        decimal(n / 10).push(digit((n % 10) as int))
    }
}

/// Whether `a` comes before `b` when both are compared from position `i` on,
/// character by character, and a text comes before its continuations.
pub open spec fn less_from(a: Seq<char>, b: Seq<char>, i: int) -> bool
    decreases a.len() - i,
{
    if i >= b.len() {
        false
    } else if i >= a.len() {
        true
    } else if a[i] != b[i] {
        a[i] < b[i]
    } else {
        less_from(a, b, i + 1)
    }
}

/// The order of texts in a dictionary.
pub open spec fn text_less(a: Seq<char>, b: Seq<char>) -> bool {
    less_from(a, b, 0)
}

pub proof fn lemma_less_skips_prefix(a: Seq<char>, b: Seq<char>, i: int, k: int)
    requires
        0 <= i <= k <= a.len(),
        k <= b.len(),
        forall|j: int| i <= j < k ==> a[j] == b[j],
    ensures
        less_from(a, b, i) == less_from(a, b, k),
    decreases k - i,
{
    if i < k {
        lemma_less_skips_prefix(a, b, i + 1, k);
    }
}

proof fn lemma_less_total_from(a: Seq<char>, b: Seq<char>, i: int)
    requires
        0 <= i <= a.len(),
        i <= b.len(),
        forall|j: int| 0 <= j < i ==> a[j] == b[j],
    ensures
        !(less_from(a, b, i) && less_from(b, a, i)),
        a != b ==> less_from(a, b, i) || less_from(b, a, i),
    decreases a.len() - i,
{
    if i < a.len() && i < b.len() {
        if a[i] == b[i] {
            lemma_less_total_from(a, b, i + 1);
        }
    } else if a.len() == b.len() {
        assert(a =~= b);
    }
}

proof fn lemma_less_transitive_from(a: Seq<char>, b: Seq<char>, c: Seq<char>, i: int)
    requires
        0 <= i,
        less_from(a, b, i),
        less_from(b, c, i),
    ensures
        less_from(a, c, i),
    decreases a.len() - i,
{
    if i < a.len() && a[i] == b[i] && b[i] == c[i] {
        lemma_less_transitive_from(a, b, c, i + 1);
    }
}

/// Law: of two different texts exactly one comes before the other, and no
/// text comes before itself.
pub proof fn law_text_order_is_total(a: Seq<char>, b: Seq<char>)
    ensures
        !(text_less(a, b) && text_less(b, a)),
        text_less(a, b) || text_less(b, a) <==> a != b,
{
    lemma_less_total_from(a, b, 0);
    lemma_less_total_from(a, a, 0);
}

/// Law: the order of texts is transitive.
pub proof fn law_text_order_is_transitive(a: Seq<char>, b: Seq<char>, c: Seq<char>)
    requires
        text_less(a, b),
        text_less(b, c),
    ensures
        text_less(a, c),
{
    lemma_less_transitive_from(a, b, c, 0);
}

pub proof fn lemma_digit_injective(a: int, b: int)
    requires
        0 <= a < 10,
        0 <= b < 10,
    ensures
        digit(a) == digit(b) <==> a == b,
        digit(a) < digit(b) <==> a < b,
        '0' <= digit(a) <= '9',
{
}

pub proof fn lemma_decimal_length(n: nat)
    ensures
        decimal(n).len() >= 1,
        n >= 10_000 ==> decimal(n).len() >= 5,
    decreases n,
{
    if n >= 10 {
        lemma_decimal_length(n / 10);
        if n >= 10_000 {
            reveal_with_fuel(decimal, 5);
        }
    }
}

/// Law: different numbers are written differently.
pub proof fn law_decimal_is_injective(a: nat, b: nat)
    requires
        decimal(a) == decimal(b),
    ensures
        a == b,
    decreases a,
{
    if a < 10 || b < 10 {
        if a >= 10 {
            lemma_decimal_length(a / 10);
            assert(decimal(a).len() >= 2);
            assert(decimal(b).len() == 1);
        } else if b >= 10 {
            lemma_decimal_length(b / 10);
            assert(decimal(b).len() >= 2);
            assert(decimal(a).len() == 1);
        } else {
            lemma_digit_injective(a as int, b as int);
            assert(decimal(a)[0] == digit(a as int));
            assert(decimal(b)[0] == digit(b as int));
        }
    } else {
        assert(decimal(a).drop_last() =~= decimal(a / 10));
        assert(decimal(b).drop_last() =~= decimal(b / 10));
        assert(decimal(a).last() == digit((a % 10) as int));
        assert(decimal(b).last() == digit((b % 10) as int));
        law_decimal_is_injective(a / 10, b / 10);
        lemma_digit_injective((a % 10) as int, (b % 10) as int);
    }
}

/// Whether `a` comes before `b`.
pub fn comes_before(a: &str, b: &str) -> (before: bool)
    ensures
        before == text_less(a@, b@),
{
    let a_len: usize = a.unicode_len();
    let b_len: usize = b.unicode_len();
    let mut i: usize = 0;
    while i < a_len && i < b_len
        invariant
            a_len == a@.len(),
            b_len == b@.len(),
            i <= a_len,
            i <= b_len,
            text_less(a@, b@) == less_from(a@, b@, i as int),
        decreases a_len - i,
    {
        let x = a.get_char(i);
        let y = b.get_char(i);
        if x != y {
            return x < y;
        }
        i = i + 1;
    }
    i < b_len
}

fn digit_text(n: u64) -> (text: &'static str)
    requires
        n < 10,
    ensures
        text@ == seq![digit(n as int)],
{
    proof {
        reveal_strlit("0");
        reveal_strlit("1");
        reveal_strlit("2");
        reveal_strlit("3");
        reveal_strlit("4");
        reveal_strlit("5");
        reveal_strlit("6");
        reveal_strlit("7");
        reveal_strlit("8");
        reveal_strlit("9");
    }
    match n {
        0 => "0",
        1 => "1",
        2 => "2",
        3 => "3",
        4 => "4",
        5 => "5",
        6 => "6",
        7 => "7",
        8 => "8",
        _ => "9",
    }
}

/// Writes a number in decimal.
pub fn decimal_text(n: u64) -> (text: String)
    ensures
        text@ == decimal(n as nat),
    decreases n,
{
    if n < 10 {
        digit_text(n).to_owned()
    } else {
        let mut text = decimal_text(n / 10);
        text.append(digit_text(n % 10));
        proof {
            assert(text@ =~= decimal(n as nat));
        }
        text
    }
}

/// Law: the first difference decides the order of two texts, and without one the
/// shorter text comes first.
pub proof fn law_first_difference_decides(a: Seq<char>, b: Seq<char>, k: int)
    requires
        0 <= k <= a.len(),
        k <= b.len(),
        forall|j: int| 0 <= j < k ==> a[j] == b[j],
    ensures
        k < a.len() && k < b.len() && a[k] != b[k] ==> (text_less(a, b) <==> a[k] < b[k]),
        k == a.len() ==> (text_less(a, b) <==> a.len() < b.len()),
        k == b.len() ==> !text_less(a, b),
{
    lemma_less_skips_prefix(a, b, 0, k);
}

/// Law: a digit is written as the character that is as far after the zero, and
/// putting one more digit behind a number writes it behind the number's text.
pub proof fn law_decimal_grows_by_digits(n: nat, d: nat)
    requires
        d < 10,
    ensures
        decimal(d) == seq![(48 + d) as char],
        n > 0 ==> decimal(10 * n + d) == decimal(n).push((48 + d) as char),
{
}

/// The digits of a number below 10000 are what its quotients leave.
pub proof fn lemma_four_quotients(a: int, b: int, c: int, d: int)
    requires
        0 <= a < 10,
        0 <= b < 10,
        0 <= c < 10,
        0 <= d < 10,
    ensures
        ({
            let n = 1000 * a + 100 * b + 10 * c + d;
            n / 1000 == a && n / 100 % 10 == b && n / 10 % 10 == c && n % 10 == d
        }),
{
    let n = 1000 * a + 100 * b + 10 * c + d;
    assert(n / 1000 == a);
    assert(n / 100 == 10 * a + b);
    assert((10 * a + b) % 10 == b);
    assert(n / 10 == 10 * (10 * a + b) + c);
    assert((10 * (10 * a + b) + c) % 10 == c);
    assert(n % 10 == d);
}

/// Law: two and four digits are written one after the other.
pub proof fn law_digits_are_written_in_turn(a: int, b: int, c: int, d: int)
    requires
        0 <= a < 10,
        0 <= b < 10,
        0 <= c < 10,
        0 <= d < 10,
    ensures
        two_digits(10 * a + b) == seq![(48 + a) as char, (48 + b) as char],
        four_digits(1000 * a + 100 * b + 10 * c + d) == seq![
            (48 + a) as char,
            (48 + b) as char,
            (48 + c) as char,
            (48 + d) as char,
        ],
{
    lemma_four_quotients(a, b, c, d);
}

} // verus!
