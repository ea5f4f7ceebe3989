//! Text helpers: joining, ordering of names, and decimal numbers.

use vstd::prelude::*;
use vstd::std_specs::iter::IteratorSpec;
use vstd::string::StringExecFns;

verus! {

/// `first` followed by `second`.
pub fn join_text(first: &str, second: &str) -> (text: String)
    ensures
        text@ == first@ + second@,
{
    let mut text = first.to_string();
    text.append(second);
    text
}

/// The characters of a text.
pub fn collect_chars(text: &str) -> (chars: Vec<char>)
    ensures
        chars@ == text@,
{
    let mut chars: Vec<char> = Vec::new();
    let mut rest = text.chars();
    let ghost mut read: int = 0;
    assert(text@.skip(0) =~= text@);
    loop
        invariant
            0 <= read <= text@.len(),
            chars@ == text@.take(read),
            rest.remaining() == text@.skip(read),
        decreases text@.len() - read,
    {
        match rest.next() {
            Some(c) => {
                chars.push(c);
                proof {
                    assert(text@.skip(read).drop_first() =~= text@.skip(read + 1));
                    read = read + 1;
                    assert(text@.take(read) =~= text@.take(read - 1).push(c));
                }
            },
            None => {
                assert(text@.take(read) =~= text@);
                return chars;
            },
        }
    }
}

/// Whether `text` starts with `prefix`.
pub fn has_prefix(text: &str, prefix: &str) -> (found: bool)
    ensures
        found == prefix@.is_prefix_of(text@),
{
    let mut rest = text.chars();
    let mut wanted = prefix.chars();
    let ghost mut read: int = 0;
    proof {
        assert(text@.skip(0) =~= text@);
        assert(prefix@.skip(0) =~= prefix@);
    }
    loop
        invariant
            0 <= read <= prefix@.len(),
            read <= text@.len(),
            rest.remaining() == text@.skip(read),
            wanted.remaining() == prefix@.skip(read),
            prefix@.take(read) == text@.take(read),
        decreases prefix@.len() - read,
    {
        let c = match wanted.next() {
            Some(c) => c,
            None => {
                assert(prefix@.take(read) =~= prefix@);
                return true;
            },
        };
        assert(prefix@.skip(read)[0] == prefix@[read]);
        match rest.next() {
            Some(d) => {
                assert(text@.skip(read)[0] == text@[read]);
                if c != d {
                    return false;
                }
            },
            None => {
                return false;
            },
        }
        proof {
            assert(prefix@.skip(read).drop_first() =~= prefix@.skip(read + 1));
            assert(text@.skip(read).drop_first() =~= text@.skip(read + 1));
            assert(prefix@.take(read + 1) =~= prefix@.take(read).push(c));
            assert(text@.take(read + 1) =~= text@.take(read).push(c));
            read = read + 1;
        }
    }
}

/// Whether two texts are the same.
pub fn same_text(a: &str, b: &str) -> (same: bool)
    ensures
        same == (a@ == b@),
{
    let same = has_prefix(a, b) && has_prefix(b, a);
    proof {
        if same {
            assert(a@ =~= b@);
        }
    }
    same
}

/// The texts of a list of strings.
pub open spec fn texts_of(list: Seq<String>) -> Seq<Seq<char>> {
    list.map_values(|text: String| text@)
}

/// A copy of a list of texts.
pub fn copy_texts(texts: &Vec<String>) -> (copy: Vec<String>)
    ensures
        copy@ == texts@,
{
    let mut copy: Vec<String> = Vec::new();
    let mut i: usize = 0;
    while i < texts.len()
        invariant
            i <= texts@.len(),
            copy@ == texts@.take(i as int),
        decreases texts@.len() - i,
    {
        copy.push(texts[i].clone());
        assert(texts@.take(i + 1) =~= texts@.take(i as int).push(texts@[i as int]));
        i = i + 1;
    }
    assert(texts@.take(i as int) =~= texts@);
    copy
}

/// A copy of a text that may be missing.
pub fn copy_optional(text: &Option<String>) -> (copy: Option<String>)
    ensures
        copy == *text,
{
    match text {
        Some(text) => Some(text.clone()),
        None => None,
    }
}

/// Dictionary order of two names, character by character.
pub open spec fn name_precedes(a: Seq<char>, b: Seq<char>) -> bool
    decreases a.len(),
{
    if b.len() == 0 {
        false
    } else if a.len() == 0 {
        true
    } else if a[0] == b[0] {
        name_precedes(a.drop_first(), b.drop_first())
    } else {
        a[0] < b[0]
    }
}

/// Of two different names exactly one comes first, and no name comes before
/// itself.
pub proof fn lemma_name_order_is_strict(a: Seq<char>, b: Seq<char>)
    ensures
        a == b ==> !name_precedes(a, b) && !name_precedes(b, a),
        a != b ==> name_precedes(a, b) != name_precedes(b, a),
    decreases a.len(),
{
    if a.len() > 0 && b.len() > 0 && a[0] == b[0] {
        lemma_name_order_is_strict(a.drop_first(), b.drop_first());
        if a.drop_first() == b.drop_first() {
            assert(a =~= seq![a[0]] + a.drop_first());
            assert(b =~= seq![b[0]] + b.drop_first());
        }
    } else if a.len() == 0 && b.len() == 0 {
        assert(a =~= b);
    }
}

/// Whether the name `a` comes before the name `b`.
pub fn precedes(a: &str, b: &str) -> (before: bool)
    ensures
        before == name_precedes(a@, b@),
{
    let mut left = a.chars();
    let mut right = b.chars();
    let ghost mut read: int = 0;
    proof {
        assert(a@.skip(0) =~= a@);
        assert(b@.skip(0) =~= b@);
    }
    loop
        invariant
            0 <= read <= a@.len(),
            read <= b@.len(),
            left.remaining() == a@.skip(read),
            right.remaining() == b@.skip(read),
            name_precedes(a@, b@) == name_precedes(a@.skip(read), b@.skip(read)),
        decreases a@.len() - read,
    {
        let x = left.next();
        let y = right.next();
        match (x, y) {
            (_, None) => {
                return false;
            },
            (None, Some(_)) => {
                return true;
            },
            (Some(c), Some(d)) => {
                if c != d {
                    return c < d;
                }
                proof {
                    assert(a@.skip(read).drop_first() =~= a@.skip(read + 1));
                    assert(b@.skip(read).drop_first() =~= b@.skip(read + 1));
                    read = read + 1;
                }
            },
        }
    }
}

pub open spec fn is_digit(c: char) -> bool {
    '0' <= c <= '9'
}

/// The number that a run of decimal digits denotes.
pub open spec fn decimal_value(digits: Seq<char>) -> nat
    decreases digits.len(),
{
    if digits.len() == 0 {
        0
    } else {
        10 * decimal_value(digits.drop_last()) + (digits.last() as nat - '0' as nat) as nat
    }
}

/// The digits of a number as it is read from text: an optional plus sign may
/// stand before them.
pub open spec fn unsigned_digits(text: Seq<char>) -> Seq<char> {
    if text.len() > 0 && text[0] == '+' {
        text.drop_first()
    } else {
        text
    }
}

/// The unsigned 64-bit number that `text` spells, if it spells one.
pub open spec fn unsigned_number(text: Seq<char>) -> Option<u64> {
    let digits = unsigned_digits(text);
    if digits.len() > 0 && (forall|i: int| 0 <= i < digits.len() ==> is_digit(#[trigger] digits[i]))
        && decimal_value(digits) <= u64::MAX {
        Some(decimal_value(digits) as u64)
    } else {
        None
    }
}

proof fn lemma_decimal_value_grows(digits: Seq<char>, more: Seq<char>)
    requires
        digits.is_prefix_of(more),
        forall|i: int| 0 <= i < more.len() ==> is_digit(#[trigger] more[i]),
    ensures
        decimal_value(digits) <= decimal_value(more),
    decreases more.len(),
{
    if digits.len() < more.len() {
        assert(digits =~= more.take(digits.len() as int));
        assert(digits.is_prefix_of(more.drop_last()));
        lemma_decimal_value_grows(digits, more.drop_last());
    } else {
        assert(digits =~= more);
    }
}

/// Reads an unsigned decimal number.
pub fn parse_unsigned(text: &str) -> (number: Option<u64>)
    ensures
        number == unsigned_number(text@),
{
    let mut chars = text.chars();
    let ghost digits = unsigned_digits(text@);
    let mut pending = chars.next();
    if pending == Some('+') {
        pending = chars.next();
    }
    if pending.is_none() {
        return None;
    }
    let mut value: u64 = 0;
    let ghost mut done: int = 0;
    proof {
        assert(digits.take(0) =~= Seq::<char>::empty());
    }
    loop
        invariant
            0 <= done < digits.len(),
            digits == unsigned_digits(text@),
            pending == Some(digits[done]),
            chars.remaining() == digits.skip(done + 1),
            value == decimal_value(digits.take(done)),
            forall|i: int| 0 <= i < done ==> is_digit(#[trigger] digits[i]),
        decreases digits.len() - done,
    {
        let c = match pending {
            Some(c) => c,
            None => {
                return None;
            },
        };
        if c < '0' || c > '9' {
            assert(!is_digit(digits[done]));
            return None;
        }
        let digit: u64 = c as u64 - '0' as u64;
        proof {
            assert(digits.take(done + 1).drop_last() =~= digits.take(done));
            assert(digits.take(done + 1).last() == digits[done]);
            assert(decimal_value(digits.take(done + 1)) == 10 * value + digit);
        }
        let next_value: u64 = match value.checked_mul(10) {
            Some(shifted) => match shifted.checked_add(digit) {
                Some(sum) => sum,
                None => {
                    proof {
                        if forall|i: int| 0 <= i < digits.len() ==> is_digit(#[trigger] digits[i]) {
                            lemma_decimal_value_grows(digits.take(done + 1), digits);
                        }
                    }
                    return None;
                },
            },
            None => {
                proof {
                    if forall|i: int| 0 <= i < digits.len() ==> is_digit(#[trigger] digits[i]) {
                        lemma_decimal_value_grows(digits.take(done + 1), digits);
                    }
                }
                return None;
            },
        };
        value = next_value;
        pending = chars.next();
        proof {
            done = done + 1;
            if done < digits.len() {
                assert(digits.skip(done)[0] == digits[done]);
                assert(digits.skip(done).drop_first() =~= digits.skip(done + 1));
            } else {
                assert(digits.take(done) =~= digits);
            }
        }
        if pending.is_none() {
            return Some(value);
        }
    }
}

/// The decimal digits of a number, without leading zeros.
pub open spec fn decimal_text(value: nat) -> Seq<char>
    decreases value,
{
    let digit = ('0' as nat + value % 10) as char;
    if value < 10 {
        seq![digit]
    } else {
        decimal_text(value / 10).push(digit)
    }
}

/// Writing a number in decimal and reading it back gives the number.
pub proof fn lemma_decimal_text_reads_back(value: u64)
    ensures
        unsigned_number(decimal_text(value as nat)) == Some(value),
{
    lemma_decimal_text(value as nat);
}

proof fn lemma_decimal_text(value: nat)
    ensures
        decimal_text(value).len() > 0,
        decimal_text(value)[0] != '+',
        forall|i: int|
            0 <= i < decimal_text(value).len() ==> is_digit(#[trigger] decimal_text(value)[i]),
        decimal_value(decimal_text(value)) == value,
    decreases value,
{
    let text = decimal_text(value);
    if value < 10 {
        reveal_with_fuel(decimal_value, 2);
        assert(text.drop_last() =~= Seq::<char>::empty());
    } else {
        lemma_decimal_text(value / 10);
        assert(text.drop_last() =~= decimal_text(value / 10));
    }
}

fn digit_text(digit: u64) -> (text: &'static str)
    requires
        digit < 10,
    ensures
        text@ == seq![('0' as nat + digit) as char],
{
    proof {
        reveal_strlit("0");
        reveal_strlit("1");
        reveal_strlit("2");
        reveal_strlit("3");
        reveal_strlit("4");
        reveal_strlit("5");
        reveal_strlit("6");
        reveal_strlit("7");
        reveal_strlit("8");
        reveal_strlit("9");
    }
    match digit {
        0 => "0",
        1 => "1",
        2 => "2",
        3 => "3",
        4 => "4",
        5 => "5",
        6 => "6",
        7 => "7",
        8 => "8",
        _ => "9",
    }
}

/// Writes a number in decimal.
pub fn decimal(value: u64) -> (text: String)
    ensures
        text@ == decimal_text(value as nat),
    decreases value,
{
    let mut text = if value >= 10 {
        decimal(value / 10)
    } else {
        String::new()
    };
    text.append(digit_text(value % 10));
    text
}

/// Names are ordered like words in a dictionary: a name comes before its
/// continuations, and otherwise the first difference decides.
pub proof fn lemma_names_are_ordered_like_words(
    start: Seq<char>,
    a: char,
    b: char,
    more: Seq<char>,
    other: Seq<char>,
)
    ensures
        name_precedes(start, start.push(b) + other),
        !name_precedes(start.push(a) + more, start),
        a != b ==> (name_precedes(start.push(a) + more, start.push(b) + other) <==> a < b),
    decreases start.len(),
{
    let left = start.push(a) + more;
    let right = start.push(b) + other;
    if start.len() == 0 {
        assert(left[0] == a);
        assert(right[0] == b);
    } else {
        assert(left[0] == start[0]);
        assert(right[0] == start[0]);
        let rest = start.drop_first();
        assert(left.drop_first() =~= rest.push(a) + more);
        assert(right.drop_first() =~= rest.push(b) + other);
        lemma_names_are_ordered_like_words(rest, a, b, more, other);
    }
}

} // verus!
