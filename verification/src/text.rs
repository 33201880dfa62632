//! Texts: lists of them, and numbers written in them.

use vstd::prelude::*;
use vstd::string::StringExecFns;

verus! {

/// The texts of a list of strings.
pub open spec fn texts(list: Seq<String>) -> Seq<Seq<char>> {
    list.map_values(|s: String| s@)
}

/// The character for a digit below ten.
pub open spec fn digit(d: nat) -> char {
    (48 + d) as char
}

/// A natural number in decimal, without leading zeros.
pub open spec fn digits(n: nat) -> Seq<char>
    decreases n,
{
    if n < 10 {
        seq![digit(n)]
    } else {
        digits(n / 10).push(digit(n % 10))
    }
}

/// An integer in decimal, with a minus sign where it is negative.
pub open spec fn decimal(n: int) -> Seq<char> {
    if n < 0 {
        seq!['-'] + digits((-n) as nat)
    } else {
        digits(n as nat)
    }
}

pub open spec fn all_digits(text: Seq<char>) -> bool {
    forall|i: int| 0 <= i < text.len() ==> '0' <= #[trigger] text[i] <= '9'
}

/// The number that a text of digits writes.
pub open spec fn digits_value(text: Seq<char>) -> int
    decreases text.len(),
{
    if text.len() == 0 {
        0
    } else {
        10 * digits_value(text.drop_last()) + (text.last() as int - 48)
    }
}

/// The number that a text writes, as a sign or none and then one digit or more.
pub open spec fn number_in(text: Seq<char>) -> Option<int> {
    let signed = text.len() > 0 && (text[0] == '+' || text[0] == '-');
    let body = if signed {
        text.skip(1)
    } else {
        text
    };
    if body.len() == 0 || !all_digits(body) {
        None
    } else if signed && text[0] == '-' {
        Some(-digits_value(body))
    } else {
        Some(digits_value(body))
    }
}

/// The same, where the number fits in 64 bits with a sign.
pub open spec fn i64_in(text: Seq<char>) -> Option<int> {
    match number_in(text) {
        Some(n) => if i64::MIN <= n <= i64::MAX {
            Some(n)
        } else {
            None
        },
        None => None,
    }
}

/// Calls `str::parse::<i64>`. Trusted: it succeeds on an optional sign followed by digits only, at
/// least one, whose number fits, and gives that number; on every other text it fails.
#[verifier::external_body]
pub(crate) fn parse_i64(text: &str) -> (r: Option<i64>)
    ensures
        r is Some <==> i64_in(text@) is Some,
        r matches Some(n) ==> i64_in(text@) == Some(n as int),
{
    text.parse::<i64>().ok()
}

/// The text of a digit.
fn digit_text(d: u64) -> (r: &'static str)
    requires
        d < 10,
    ensures
        r@ == seq![digit(d as nat)],
{
    proof {
        reveal_strlit("0");
        reveal_strlit("1");
        reveal_strlit("2");
        reveal_strlit("3");
        reveal_strlit("4");
        reveal_strlit("5");
        reveal_strlit("6");
        reveal_strlit("7");
        reveal_strlit("8");
        reveal_strlit("9");
    }
    match d {
        0 => "0",
        1 => "1",
        2 => "2",
        3 => "3",
        4 => "4",
        5 => "5",
        6 => "6",
        7 => "7",
        8 => "8",
        _ => "9",
    }
}

fn digits_text(n: u64) -> (r: String)
    ensures
        r@ == digits(n as nat),
    decreases n,
{
    if n < 10 {
        digit_text(n).to_string()
    } else {
        let mut text = digits_text(n / 10);
        text.append(digit_text(n % 10));
        text
    }
}

/// The number in decimal.
pub fn i64_text(n: i64) -> (r: String)
    ensures
        r@ == decimal(n as int),
{
    if n < 0 {
        proof {
            reveal_strlit("-");
        }
        let size: u64 = (-(n as i128)) as u64;
        let mut text = "-".to_string();
        text.append(digits_text(size).as_str());
        text
    } else {
        digits_text(n as u64)
    }
}

/// The number in decimal.
pub fn usize_text(n: usize) -> (r: String)
    ensures
        r@ == decimal(n as int),
{
    digits_text(n as u64)
}

/// Whether the list holds a string of that text.
pub fn contains_text(list: &Vec<String>, text: &String) -> (r: bool)
    ensures
        r == texts(list@).contains(text@),
{
    let mut i: usize = 0;
    while i < list.len()
        invariant
            i <= list@.len(),
            forall|j: int| 0 <= j < i ==> (#[trigger] texts(list@)[j]) != text@,
        decreases list@.len() - i,
    {
        assert(texts(list@)[i as int] == list@[i as int]@);
        if list[i] == *text {
            return true;
        }
        i += 1;
    }
    false
}

/// A list of the same texts.
pub fn duplicate_texts(list: &Vec<String>) -> (r: Vec<String>)
    ensures
        r@ == list@,
{
    let mut r: Vec<String> = Vec::new();
    let mut i: usize = 0;
    while i < list.len()
        invariant
            i == r@.len(),
            i <= list@.len(),
            r@ =~= list@.take(i as int),
        decreases list@.len() - i,
    {
        r.push(list[i].clone());
        i += 1;
    }
    assert(list@.take(i as int) =~= list@);
    r
}

/// A number of 64 bits written in decimal reads back as itself.
pub proof fn decimal_reads_back(n: i64)
    ensures
        i64_in(decimal(n as int)) == Some(n as int),
{
    if n < 0 {
        let text = decimal(n as int);
        lemma_digits((-n) as nat);
        assert(text.skip(1) =~= digits((-n) as nat));
        assert(text[0] == '-');
    } else {
        lemma_digits(n as nat);
        let text = decimal(n as int);
        assert('0' <= text[0] <= '9');
    }
}

/// Numbers that are written alike are equal.
pub proof fn decimal_tells_numbers_apart(a: int, b: int)
    requires
        decimal(a) == decimal(b),
    ensures
        a == b,
{
    let size_a = (if a < 0 {
        -a
    } else {
        a
    }) as nat;
    let size_b = (if b < 0 {
        -b
    } else {
        b
    }) as nat;
    lemma_digits(size_a);
    lemma_digits(size_b);
    if a < 0 {
        assert(decimal(a)[0] == '-');
        assert(decimal(a).skip(1) =~= digits(size_a));
    } else {
        assert('0' <= decimal(a)[0] <= '9');
    }
    if b < 0 {
        assert(decimal(b)[0] == '-');
        assert(decimal(b).skip(1) =~= digits(size_b));
    } else {
        assert('0' <= decimal(b)[0] <= '9');
    }
}

/// Which numbers a text writes: a plus sign does not matter, and there is no number in a text
/// without a digit or with a character that is neither a digit nor a sign in front.
pub proof fn numbers_are_digits_after_a_sign(n: i64, text: Seq<char>, i: int)
    ensures
        n >= 0 ==> i64_in(seq!['+'] + decimal(n as int)) == Some(n as int),
        0 < i < text.len() && !('0' <= text[i] <= '9') ==> i64_in(text) is None,
        text.len() == 1 && !('0' <= text[0] <= '9') ==> i64_in(text) is None,
        text.len() > 1 && !('0' <= text[0] <= '9') && text[0] != '+' && text[0] != '-' ==> i64_in(
            text,
        ) is None,
        text.len() == 0 ==> i64_in(text) is None,
{
    if n >= 0 {
        decimal_reads_back(n);
        lemma_digits(n as nat);
        let signed = seq!['+'] + decimal(n as int);
        assert(signed[0] == '+');
        assert(signed.skip(1) =~= decimal(n as int));
    }
    if 0 < i < text.len() && !('0' <= text[i] <= '9') {
        assert(text.skip(1)[i - 1] == text[i]);
    }
}

proof fn lemma_digits(n: nat)
    ensures
        digits(n).len() > 0,
        all_digits(digits(n)),
        digits_value(digits(n)) == n,
    decreases n,
{
    reveal_with_fuel(digits_value, 2);
    if n < 10 {
        assert(digits(n).drop_last() =~= Seq::empty());
    } else {
        lemma_digits(n / 10);
        assert(digits(n).drop_last() =~= digits(n / 10));
    }
}

} // verus!
