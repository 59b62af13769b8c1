//! Text helpers: order, search, decimal numbers, clipping and joining.

use vstd::prelude::*;
use vstd::string::StringExecFns;
use vstd::string::StrSliceExecFns;

verus! {

/// Byte-wise order of UTF-8 texts, which is the order of their code points.
pub open spec fn text_less(left: Seq<char>, right: Seq<char>) -> bool
    decreases left.len(),
{
    if right.len() == 0 {
        false
    } else if left.len() == 0 {
        true
    } else if left[0] != right[0] {
        left[0] < right[0]
    } else {
        text_less(left.skip(1), right.skip(1))
    }
}

/// The decimal digits of a number, without leading zeros.
pub open spec fn decimal(value: nat) -> Seq<char>
    decreases value,
{
    let digit = ((value % 10) + 48) as char;
    if value < 10 {
        seq![digit]
    } else {
        decimal(value / 10).push(digit)
    }
}

/// Whether a character is an ASCII digit.
pub open spec fn is_digit(c: char) -> bool {
    '0' <= c && c <= '9'
}

/// Value of a run of decimal digits, most significant first.
pub open spec fn digits_value(digits: Seq<char>) -> nat
    decreases digits.len(),
{
    if digits.len() == 0 {
        0
    } else {
        digits_value(digits.drop_last()) * 10 + (digits.last() as nat - 48) as nat
    }
}

/// The digits of an unsigned number as it may be written: an optional plus sign is dropped.
pub open spec fn unsigned_digits(value: Seq<char>) -> Seq<char> {
    if value.len() > 0 && value[0] == '+' {
        value.skip(1)
    } else {
        value
    }
}

/// Reading of an unsigned decimal number no larger than `max`.
pub open spec fn unsigned_number(value: Seq<char>, max: nat) -> Option<nat> {
    let digits = unsigned_digits(value);
    if digits.len() > 0 && (forall|i: int| 0 <= i < digits.len() ==> is_digit(#[trigger] digits[i]))
        && digits_value(digits) <= max {
        Some(digits_value(digits))
    } else {
        None
    }
}

/// Whether `part` occurs in `whole` at `at`.
pub open spec fn occurs_at(whole: Seq<char>, part: Seq<char>, at: int) -> bool {
    0 <= at && at + part.len() <= whole.len() && whole.subrange(at, at + part.len()) == part
}

/// Whether `part` occurs somewhere in `whole`.
pub open spec fn occurs(whole: Seq<char>, part: Seq<char>) -> bool {
    exists|at: int| occurs_at(whole, part, at)
}

/// The first `max` characters of a text.
pub open spec fn clip(value: Seq<char>, max: nat) -> Seq<char> {
    if value.len() <= max {
        value
    } else {
        value.take(max as int)
    }
}

/// Concatenates two texts.
pub fn join2(left: &str, right: &str) -> (joined: String)
    ensures
        joined@ == left@ + right@,
{
    let mut joined = left.to_owned();
    joined.append(right);
    joined
}

/// The first `max` characters of a text.
pub fn clipped(value: &str, max: usize) -> (short: String)
    ensures
        short@ == clip(value@, max as nat),
{
    let length: usize = value.unicode_len();
    if length <= max {
        value.to_owned()
    } else {
        value.substring_char(0, max).to_owned()
    }
}

/// The characters of a text.
pub fn char_list(value: &str) -> (list: Vec<char>)
    ensures
        list@ == value@,
{
    let mut list: Vec<char> = Vec::new();
    for c in it: value.chars()
        invariant
            it.seq() == value@,
            list@ == value@.take(it.index() as int),
    {
        list.push(c);
        assert(list@ =~= value@.take(it.index() as int + 1));
    }
    assert(value@.take(value@.len() as int) =~= value@);
    list
}

/// Whether two texts hold the same characters.
pub fn same(left: &str, right: &str) -> (equal: bool)
    ensures
        equal <==> left@ == right@,
{
    let a = char_list(left);
    let b = char_list(right);
    if a.len() != b.len() {
        return false;
    }
    let mut i: usize = 0;
    while i < a.len()
        invariant
            i <= a.len(),
            a.len() == b.len(),
            a@ == left@,
            b@ == right@,
            forall|j: int| 0 <= j < i ==> a@[j] == b@[j],
        decreases a.len() - i,
    {
        if a[i] != b[i] {
            assert(left@[i as int] != right@[i as int]);
            return false;
        }
        i += 1;
    }
    assert(left@ =~= right@);
    true
}

/// Whether two optional texts agree.
pub fn same_option(left: &Option<String>, right: &Option<String>) -> (equal: bool)
    ensures
        equal <==> left.deep_view() == right.deep_view(),
{
    match (left, right) {
        (None, None) => true,
        (Some(a), Some(b)) => same(a.as_str(), b.as_str()),
        _ => false,
    }
}

/// An optional text with the same characters.
pub fn copy_option(value: &Option<String>) -> (copy: Option<String>)
    ensures
        copy == *value,
{
    match value {
        Some(text) => Some(text.clone()),
        None => None,
    }
}

/// Whether the left text sorts strictly before the right one.
pub fn less(left: &str, right: &str) -> (before: bool)
    ensures
        before == text_less(left@, right@),
{
    let a = char_list(left);
    let b = char_list(right);
    assert(a@.skip(0) =~= left@ && b@.skip(0) =~= right@);
    let mut i: usize = 0;
    while i < a.len() && i < b.len()
        invariant
            i <= a.len(),
            i <= b.len(),
            a@ == left@,
            b@ == right@,
            text_less(left@, right@) == text_less(a@.skip(i as int), b@.skip(i as int)),
        decreases a.len() - i,
    {
        let ghost x = a@.skip(i as int);
        let ghost y = b@.skip(i as int);
        if a[i] != b[i] {
            return a[i] < b[i];
        }
        proof {
            assert(x.skip(1) =~= a@.skip(i + 1));
            assert(y.skip(1) =~= b@.skip(i + 1));
        }
        i += 1;
    }
    i < b.len()
}

/// No text sorts before itself.
pub proof fn text_less_irreflexive(a: Seq<char>)
    ensures
        !text_less(a, a),
    decreases a.len(),
{
    if a.len() > 0 {
        text_less_irreflexive(a.skip(1));
    }
}

/// The order of texts is transitive.
pub proof fn text_less_transitive(a: Seq<char>, b: Seq<char>, c: Seq<char>)
    requires
        text_less(a, b),
        text_less(b, c),
    ensures
        text_less(a, c),
    decreases a.len(),
{
    if a.len() > 0 && b.len() > 0 && c.len() > 0 && a[0] == b[0] && b[0] == c[0] {
        text_less_transitive(a.skip(1), b.skip(1), c.skip(1));
    }
}

/// Two different texts are ordered one way or the other.
pub proof fn text_less_total(a: Seq<char>, b: Seq<char>)
    ensures
        text_less(a, b) || text_less(b, a) || a == b,
    decreases a.len(),
{
    if a.len() == 0 && b.len() == 0 {
        assert(a =~= b);
    } else if a.len() > 0 && b.len() > 0 && a[0] == b[0] {
        text_less_total(a.skip(1), b.skip(1));
        if a.skip(1) == b.skip(1) {
            assert(a =~= seq![a[0]] + a.skip(1));
            assert(b =~= seq![b[0]] + b.skip(1));
        }
    }
}

fn digit_text(digit: u64) -> (text: String)
    requires
        digit < 10,
    ensures
        text@ == seq![(digit + 48) as char],
{
    proof {
        reveal_strlit("0");
        reveal_strlit("1");
        reveal_strlit("2");
        reveal_strlit("3");
        reveal_strlit("4");
        reveal_strlit("5");
        reveal_strlit("6");
        reveal_strlit("7");
        reveal_strlit("8");
        reveal_strlit("9");
    }
    let text = if digit == 0 {
        "0"
    } else if digit == 1 {
        "1"
    } else if digit == 2 {
        "2"
    } else if digit == 3 {
        "3"
    } else if digit == 4 {
        "4"
    } else if digit == 5 {
        "5"
    } else if digit == 6 {
        "6"
    } else if digit == 7 {
        "7"
    } else if digit == 8 {
        "8"
    } else {
        "9"
    };
    assert(text@ =~= seq![(digit + 48) as char]);
    text.to_owned()
}

/// Writes a number in decimal.
pub fn format_decimal(value: u64) -> (text: String)
    ensures
        text@ == decimal(value as nat),
    decreases value,
{
    let last = digit_text(value % 10);
    if value < 10 {
        last
    } else {
        let mut text = format_decimal(value / 10);
        text.append(last.as_str());
        assert(text@ =~= decimal(value as nat));
        text
    }
}

proof fn digits_value_prefix(digits: Seq<char>, count: int)
    requires
        0 <= count <= digits.len(),
        forall|i: int| 0 <= i < digits.len() ==> is_digit(#[trigger] digits[i]),
    ensures
        digits_value(digits.take(count)) <= digits_value(digits),
    decreases digits.len() - count,
{
    if count < digits.len() {
        digits_value_prefix(digits, count + 1);
        let longer = digits.take(count + 1);
        assert(longer.drop_last() =~= digits.take(count));
        assert(longer.last() == digits[count]);
    } else {
        assert(digits.take(count) =~= digits);
    }
}

/// Reads an unsigned decimal number no larger than `max`, with an optional plus sign.
pub fn parse_unsigned(value: &str, max: u64) -> (number: Option<u64>)
    ensures
        match number {
            Some(n) => unsigned_number(value@, max as nat) == Some(n as nat),
            None => unsigned_number(value@, max as nat) is None,
        },
{
    let list = char_list(value);
    let start: usize = if list.len() > 0 && list[0] == '+' {
        1
    } else {
        0
    };
    let ghost digits = unsigned_digits(value@);
    assert(digits =~= value@.skip(start as int));
    if list.len() == start {
        return None;
    }
    let mut total: u64 = 0;
    let mut i: usize = start;
    while i < list.len()
        invariant
            start <= i <= list.len(),
            list@ == value@,
            digits == value@.skip(start as int),
            digits == unsigned_digits(value@),
            forall|j: int| 0 <= j < i - start ==> is_digit(#[trigger] digits[j]),
            total == digits_value(digits.take(i - start)),
            total <= max,
        decreases list.len() - i,
    {
        let c = list[i];
        assert(digits[i - start] == c);
        if !('0' <= c && c <= '9') {
            assert(!is_digit(digits[i - start]));
            return None;
        }
        let digit: u64 = (c as u32 - 48) as u64;
        proof {
            let longer = digits.take(i - start + 1);
            assert(longer.drop_last() =~= digits.take(i - start));
            assert(longer.last() == c);
            assert(digits_value(longer) == total * 10 + digit);
            if forall|j: int| 0 <= j < digits.len() ==> is_digit(#[trigger] digits[j]) {
                digits_value_prefix(digits, i - start + 1);
            }
        }
        match total.checked_mul(10) {
            None => {
                return None;
            },
            Some(tens) => match tens.checked_add(digit) {
                None => {
                    return None;
                },
                Some(sum) => {
                    if sum > max {
                        return None;
                    }
                    total = sum;
                },
            },
        }
        i += 1;
    }
    assert(digits.take(i - start) =~= digits);
    Some(total)
}

/// Whether `value` starts with `prefix`.
pub fn starts_with(value: &str, prefix: &str) -> (found: bool)
    ensures
        found == occurs_at(value@, prefix@, 0),
{
    let whole = char_list(value);
    let part = char_list(prefix);
    matches_at(&whole, &part, 0)
}

fn matches_at(whole: &Vec<char>, part: &Vec<char>, at: usize) -> (found: bool)
    requires
        at <= whole.len(),
    ensures
        found == occurs_at(whole@, part@, at as int),
{
    if whole.len() - at < part.len() {
        return false;
    }
    let mut i: usize = 0;
    while i < part.len()
        invariant
            at + part.len() <= whole.len(),
            i <= part.len(),
            forall|j: int| 0 <= j < i ==> whole@[at + j] == part@[j],
        decreases part.len() - i,
    {
        if whole[at + i] != part[i] {
            assert(whole@.subrange(at as int, at + part.len())[i as int] != part@[i as int]);
            return false;
        }
        i += 1;
    }
    assert(whole@.subrange(at as int, at + part.len()) =~= part@);
    true
}

/// Whether `part` occurs in `value`.
pub fn contains(value: &str, part: &str) -> (found: bool)
    ensures
        found == occurs(value@, part@),
{
    let whole = char_list(value);
    let piece = char_list(part);
    let mut at: usize = 0;
    while at <= whole.len()
        invariant
            at <= whole.len() + 1,
            whole@ == value@,
            piece@ == part@,
            forall|j: int| 0 <= j < at ==> !occurs_at(whole@, piece@, j),
        decreases whole.len() + 1 - at,
    {
        if matches_at(&whole, &piece, at) {
            return true;
        }
        if at == whole.len() {
            return false;
        }
        at += 1;
    }
    false
}

/// Position of the first `wanted` character, or the length of the text.
pub open spec fn first_index(value: Seq<char>, wanted: char) -> int
    decreases value.len(),
{
    if value.len() == 0 || value[0] == wanted {
        0
    } else {
        1 + first_index(value.skip(1), wanted)
    }
}

/// The text before and after the first `separator`.
pub open spec fn split_first(value: Seq<char>, separator: char) -> Option<(Seq<char>, Seq<char>)> {
    let at = first_index(value, separator);
    if at < value.len() {
        Some((value.take(at), value.skip(at + 1)))
    } else {
        None
    }
}

/// What marks the first separator: nothing before it equals it.
pub proof fn first_index_marks(value: Seq<char>, wanted: char)
    ensures
        0 <= first_index(value, wanted) <= value.len(),
        forall|i: int| 0 <= i < first_index(value, wanted) ==> value[i] != wanted,
        first_index(value, wanted) < value.len() ==> value[first_index(value, wanted)] == wanted,
    decreases value.len(),
{
    if value.len() > 0 && value[0] != wanted {
        let rest = value.skip(1);
        first_index_marks(rest, wanted);
        assert forall|i: int| 0 <= i < first_index(value, wanted) implies value[i] != wanted by {
            if i > 0 {
                assert(value[i] == rest[i - 1]);
            }
        }
    }
}

/// The marks of the first separator fix its position.
pub proof fn first_index_unique(value: Seq<char>, wanted: char, at: int)
    requires
        0 <= at <= value.len(),
        forall|i: int| 0 <= i < at ==> value[i] != wanted,
        at < value.len() ==> value[at] == wanted,
    ensures
        first_index(value, wanted) == at,
{
    first_index_marks(value, wanted);
    let found = first_index(value, wanted);
    if found < at {
        assert(value[found] != wanted);
    } else if found > at {
        assert(value[at] != wanted);
    }
}

/// Splits a text at its first `separator`.
pub fn split_once(value: &str, separator: char) -> (parts: Option<(String, String)>)
    ensures
        match parts {
            Some(p) => split_first(value@, separator) == Some((p.0@, p.1@)),
            None => split_first(value@, separator) is None,
        },
{
    let list = char_list(value);
    let mut at: usize = 0;
    while at < list.len() && list[at] != separator
        invariant
            at <= list.len(),
            list@ == value@,
            forall|i: int| 0 <= i < at ==> list@[i] != separator,
        decreases list.len() - at,
    {
        at += 1;
    }
    proof {
        first_index_unique(value@, separator, at as int);
    }
    if at == list.len() {
        return None;
    }
    let before = value.substring_char(0, at).to_owned();
    let after = value.substring_char(at + 1, list.len()).to_owned();
    assert(value@.subrange(0, at as int) =~= value@.take(at as int));
    assert(value@.subrange(at + 1, list.len() as int) =~= value@.skip(at + 1));
    Some((before, after))
}

/// Whether a character has the Unicode property White_Space.
pub open spec fn white_space(c: char) -> bool {
    let code = c as u32;
    ||| 0x9 <= code <= 0xd
    ||| code == 0x20
    ||| code == 0x85
    ||| code == 0xa0
    ||| code == 0x1680
    ||| 0x2000 <= code <= 0x200a
    ||| code == 0x2028
    ||| code == 0x2029
    ||| code == 0x202f
    ||| code == 0x205f
    ||| code == 0x3000
}

/// Calls `char::is_whitespace` and claims that it tells the characters that have the Unicode
/// property White_Space.
#[verifier::external_body]
fn is_white_space(c: char) -> (found: bool)
    ensures
        found == white_space(c),
{
    c.is_whitespace()
}

/// Whether `part` is `whole` without white space at its ends.
pub open spec fn is_trimmed(whole: Seq<char>, part: Seq<char>) -> bool {
    exists|from: int, to: int| trims_to(whole, part, from, to)
}

/// Whether `part` lies in `whole` between white space only, and has none at its own ends.
pub open spec fn trims_to(whole: Seq<char>, part: Seq<char>, from: int, to: int) -> bool {
    &&& 0 <= from <= to <= whole.len()
    &&& part == whole.subrange(from, to)
    &&& forall|i: int| 0 <= i < from || to <= i < whole.len() ==> white_space(#[trigger] whole[i])
    &&& from < to ==> !white_space(whole[from]) && !white_space(whole[to - 1])
}

/// A text without the white space at its ends.
pub open spec fn trimmed(whole: Seq<char>) -> Seq<char> {
    choose|part: Seq<char>| is_trimmed(whole, part)
}

/// There is only one way to trim a text.
pub proof fn trimmed_unique(whole: Seq<char>, part: Seq<char>)
    requires
        is_trimmed(whole, part),
    ensures
        trimmed(whole) == part,
{
    let other = trimmed(whole);
    let (f1, t1) = choose|from: int, to: int| trims_to(whole, part, from, to);
    let (f2, t2) = choose|from: int, to: int| trims_to(whole, other, from, to);
    assert(trims_to(whole, part, f1, t1));
    assert(trims_to(whole, other, f2, t2));
    if f1 < t1 {
        if f2 < t2 {
            assert(f1 == f2) by {
                if f1 < f2 {
                    assert(white_space(whole[f1]));
                } else if f2 < f1 {
                    assert(white_space(whole[f2]));
                }
            }
            assert(t1 == t2) by {
                if t1 < t2 {
                    assert(white_space(whole[t2 - 1]));
                } else if t2 < t1 {
                    assert(white_space(whole[t1 - 1]));
                }
            }
        } else {
            assert(white_space(whole[f1]));
        }
    } else if f2 < t2 {
        assert(white_space(whole[f2]));
    }
    assert(part =~= other);
}

/// Drops the white space at the ends of a text.
pub fn trim(value: &str) -> (part: String)
    ensures
        part@ == trimmed(value@),
{
    let list = char_list(value);
    let mut from: usize = 0;
    while from < list.len() && is_white_space(list[from])
        invariant
            from <= list.len(),
            list@ == value@,
            forall|i: int| 0 <= i < from ==> white_space(#[trigger] value@[i]),
        decreases list.len() - from,
    {
        from += 1;
    }
    let mut to: usize = list.len();
    while to > from && is_white_space(list[to - 1])
        invariant
            from <= to <= list.len(),
            list@ == value@,
            forall|i: int| to <= i < list.len() ==> white_space(#[trigger] value@[i]),
        decreases to,
    {
        to -= 1;
    }
    let part = value.substring_char(from, to).to_owned();
    proof {
        assert(trims_to(value@, part@, from as int, to as int));
        trimmed_unique(value@, part@);
    }
    part
}

/// The parts of a text between separators.
pub open spec fn pieces(value: Seq<char>, separator: char) -> Seq<Seq<char>>
    decreases value.len(),
{
    match split_first(value, separator) {
        Some((part, rest)) => {
            if rest.len() < value.len() {
                seq![part] + pieces(rest, separator)
            } else {
                seq![value]
            }
        },
        None => seq![value],
    }
}

/// Cuts a text at every separator.
pub fn split(value: &str, separator: char) -> (parts: Vec<String>)
    ensures
        parts@.map_values(|part: String| part@) == pieces(value@, separator),
{
    let mut parts: Vec<String> = Vec::new();
    let mut rest = value.to_owned();
    assert(parts@.map_values(|part: String| part@) =~= Seq::<Seq<char>>::empty());
    loop
        invariant
            parts@.map_values(|part: String| part@) + pieces(rest@, separator) == pieces(
                value@,
                separator,
            ),
        decreases rest@.len(),
    {
        let ghost held = parts@;
        match split_once(rest.as_str(), separator) {
            Some((part, after)) => {
                proof {
                    first_index_marks(rest@, separator);
                }
                parts.push(part);
                assert(parts@.map_values(|part: String| part@) =~= held.map_values(
                    |part: String| part@,
                ).push(part@));
                assert(parts@.map_values(|part: String| part@) + pieces(after@, separator)
                    =~= held.map_values(|part: String| part@) + pieces(rest@, separator));
                rest = after;
            },
            None => {
                let last = rest.clone();
                parts.push(rest);
                assert(parts@.map_values(|part: String| part@) =~= held.map_values(
                    |part: String| part@,
                ).push(last@));
                assert(parts@.map_values(|part: String| part@) =~= pieces(value@, separator));
                return parts;
            },
        }
    }
}

/// A number is read back from its decimal form.
pub proof fn decimals_are_read_back(value: u64, text: String, digits: &str, max: u64, number: Option<u64>)
    requires
        value <= max,
        call_ensures(format_decimal, (value,), text),
        digits@ == text@,
        call_ensures(parse_unsigned, (digits, max), number),
    ensures
        number == Some(value),
{
    decimal_digits(value as nat);
}

/// The decimal form of a number has only digits, and they are worth the number.
pub proof fn decimal_digits(value: nat)
    ensures
        decimal(value).len() > 0,
        forall|i: int| 0 <= i < decimal(value).len() ==> is_digit(#[trigger] decimal(value)[i]),
        digits_value(decimal(value)) == value,
    decreases value,
{
    reveal_with_fuel(digits_value, 2);
    let digit = ((value % 10) + 48) as char;
    assert(digit as nat == value % 10 + 48);
    if value < 10 {
        assert(decimal(value) =~= seq![digit]);
        assert(decimal(value).drop_last() =~= Seq::empty());
    } else {
        decimal_digits(value / 10);
        let before = decimal(value / 10);
        assert(decimal(value).drop_last() =~= before);
        assert forall|i: int| 0 <= i < decimal(value).len() implies is_digit(#[trigger] decimal(value)[i]) by {
            if i < before.len() {
                assert(decimal(value)[i] == before[i]);
            }
        }
    }
}

/// A further digit makes a number ten times as large and adds the digit.
pub proof fn digits_count_by_tens(digits: Seq<char>, digit: char)
    requires
        is_digit(digit),
    ensures
        digits_value(digits.push(digit)) == 10 * digits_value(digits) + (digit as nat - '0' as nat),
        digits_value(Seq::empty()) == 0,
{
    assert(digits.push(digit).drop_last() =~= digits);
}

/// A text that is split at a separator is put together again from its two parts, and the first part
/// has no separator; a text that is not split has none.
pub proof fn split_texts_join(value: &str, separator: char, parts: Option<(String, String)>)
    requires
        call_ensures(split_once, (value, separator), parts),
    ensures
        parts matches Some(both) ==> value@ == both.0@ + seq![separator] + both.1@ && !both.0@.contains(separator),
        parts is None <==> !value@.contains(separator),
{
    first_index_marks(value@, separator);
    let at = first_index(value@, separator);
    if at < value@.len() {
        assert(value@ =~= value@.take(at) + seq![separator] + value@.skip(at + 1));
        assert(value@[at] == separator);
    } else if value@.contains(separator) {
        let i = choose|i: int| 0 <= i < value@.len() && value@[i] == separator;
        assert(false);
    }
}

/// Pieces put together again with their separator between.
pub open spec fn joined(parts: Seq<Seq<char>>, separator: char) -> Seq<char>
    decreases parts.len(),
{
    if parts.len() == 0 {
        Seq::empty()
    } else if parts.len() == 1 {
        parts[0]
    } else {
        parts[0] + seq![separator] + joined(parts.skip(1), separator)
    }
}

/// The pieces of a text make up the text again, and no piece has the separator.
pub proof fn pieces_make_up_the_text(value: Seq<char>, separator: char)
    ensures
        joined(pieces(value, separator), separator) == value,
        pieces(value, separator).len() > 0,
        forall|i: int|
            0 <= i < pieces(value, separator).len() ==> !(#[trigger] pieces(value, separator)[i]).contains(
                separator,
            ),
    decreases value.len(),
{
    first_index_marks(value, separator);
    let at = first_index(value, separator);
    let parts = pieces(value, separator);
    if at < value.len() {
        let rest = value.skip(at + 1);
        pieces_make_up_the_text(rest, separator);
        assert(parts =~= seq![value.take(at)] + pieces(rest, separator));
        assert(parts.skip(1) =~= pieces(rest, separator));
        assert(value =~= value.take(at) + seq![separator] + rest);
        assert forall|i: int| 0 <= i < parts.len() implies !(#[trigger] parts[i]).contains(separator) by {
            if i > 0 {
                assert(parts[i] == pieces(rest, separator)[i - 1]);
            }
        }
    } else {
        assert(parts =~= seq![value]);
    }
}

/// A split text makes up the text again.
pub proof fn splits_make_up_the_text(value: &str, separator: char, parts: Vec<String>)
    requires
        call_ensures(split, (value, separator), parts),
    ensures
        joined(parts@.map_values(|part: String| part@), separator) == value@,
        forall|i: int| 0 <= i < parts@.len() ==> !(#[trigger] parts@[i])@.contains(separator),
{
    pieces_make_up_the_text(value@, separator);
    let views = parts@.map_values(|part: String| part@);
    assert forall|i: int| 0 <= i < parts@.len() implies !(#[trigger] parts@[i])@.contains(separator) by {
        assert(views[i] == parts@[i]@);
    }
}

/// A clipped text is the start of the text, as long as is allowed, and the whole text where it fits.
pub proof fn clipped_texts_are_starts(value: &str, max: usize, short: String)
    requires
        call_ensures(clipped, (value, max), short),
    ensures
        short@.len() <= max && short@.len() <= value@.len(),
        short@ == value@.take(short@.len() as int),
        value@.len() <= max ==> short@ == value@,
        value@.len() > max ==> short@.len() == max,
{
    assert(value@ =~= value@.take(value@.len() as int));
}

/// A text holds a part exactly where it is something, the part, and something; it starts with it
/// where nothing comes before.
pub proof fn parts_are_found_where_they_are(value: &str, part: &str, found: bool, leads: bool, before: Seq<char>, after: Seq<char>)
    requires
        call_ensures(contains, (value, part), found),
        call_ensures(starts_with, (value, part), leads),
    ensures
        value@ == before + part@ + after ==> found,
        value@ == part@ + after ==> leads,
        leads ==> value@ == part@ + value@.skip(part@.len() as int),
        leads ==> found,
{
    if value@ == before + part@ + after {
        let at = before.len() as int;
        assert(value@.subrange(at, at + part@.len()) =~= part@);
        assert(occurs_at(value@, part@, at));
    }
    if value@ == part@ + after {
        assert(value@.subrange(0, part@.len() as int) =~= part@);
    }
    if leads {
        assert(occurs_at(value@, part@, 0));
        assert(value@ =~= part@ + value@.skip(part@.len() as int));
    }
}

/// Texts are ordered by their first difference; a text comes before every longer text that it starts.
pub proof fn texts_are_ordered_by_their_first_difference(common: Seq<char>, a: Seq<char>, b: Seq<char>)
    requires
        b.len() > 0,
    ensures
        a.len() == 0 ==> text_less(common + a, common + b),
        a.len() > 0 && a[0] < b[0] ==> text_less(common + a, common + b),
        a.len() > 0 && b[0] < a[0] ==> !text_less(common + a, common + b),
    decreases common.len(),
{
    if common.len() == 0 {
        assert(common + a =~= a && common + b =~= b);
    } else {
        texts_are_ordered_by_their_first_difference(common.skip(1), a, b);
        assert((common + a).skip(1) =~= common.skip(1) + a);
        assert((common + b).skip(1) =~= common.skip(1) + b);
    }
}

/// Joining puts one text behind the other, and copies are the same.
pub proof fn joined_texts_keep_both(left: &str, right: &str, both: String, value: Option<String>, copy: Option<String>)
    requires
        call_ensures(join2, (left, right), both),
        call_ensures(copy_option, (&value,), copy),
    ensures
        both@.len() == left@.len() + right@.len(),
        both@.take(left@.len() as int) == left@,
        both@.skip(left@.len() as int) == right@,
        copy == value,
{
    assert(both@.take(left@.len() as int) =~= left@);
    assert(both@.skip(left@.len() as int) =~= right@);
}

/// A trimmed text has no white space at its ends, and only white space was taken away.
pub proof fn trimmed_texts_lose_only_white_space(value: &str, part: String)
    requires
        call_ensures(trim, (value,), part),
    ensures
        part@.len() > 0 ==> !white_space(part@[0]) && !white_space(part@[part@.len() - 1]),
        exists|from: int, to: int| #[trigger] trims_to(value@, part@, from, to),
        (forall|i: int| 0 <= i < value@.len() ==> !white_space(#[trigger] value@[i])) ==> part@ == value@,
{
    every_text_is_trimmed(value@);
    let (from, to) = choose|from: int, to: int| trims_to(value@, part@, from, to);
    if forall|i: int| 0 <= i < value@.len() ==> !white_space(#[trigger] value@[i]) {
        if from > 0 {
            assert(white_space(value@[0]));
        }
        if to < value@.len() {
            assert(white_space(value@[to]));
        }
        assert(part@ =~= value@);
    }
}

/// Every text can be trimmed.
pub proof fn every_text_is_trimmed(whole: Seq<char>)
    ensures
        is_trimmed(whole, trimmed(whole)),
    decreases whole.len(),
{
    if whole.len() == 0 {
        assert(whole.subrange(0, 0) =~= Seq::empty());
        assert(trims_to(whole, whole.subrange(0, 0), 0, 0));
        assert(is_trimmed(whole, whole.subrange(0, 0)));
    } else if white_space(whole[0]) {
        let rest = whole.skip(1);
        every_text_is_trimmed(rest);
        let part = trimmed(rest);
        let (from, to) = choose|from: int, to: int| trims_to(rest, part, from, to);
        assert(whole.subrange(from + 1, to + 1) =~= rest.subrange(from, to));
        assert forall|i: int| 0 <= i < from + 1 || to + 1 <= i < whole.len() implies white_space(
            #[trigger] whole[i],
        ) by {
            if i > 0 {
                assert(white_space(rest[i - 1]));
            }
        }
        assert(trims_to(whole, part, from + 1, to + 1));
        assert(is_trimmed(whole, part));
    } else if white_space(whole.last()) {
        let rest = whole.drop_last();
        every_text_is_trimmed(rest);
        let part = trimmed(rest);
        let (from, to) = choose|from: int, to: int| trims_to(rest, part, from, to);
        assert(whole.subrange(from, to) =~= rest.subrange(from, to));
        assert forall|i: int| 0 <= i < from || to <= i < whole.len() implies white_space(#[trigger] whole[i]) by {
            if i < rest.len() {
                assert(white_space(rest[i]));
            }
        }
        assert(trims_to(whole, part, from, to));
        assert(is_trimmed(whole, part));
    } else {
        assert(whole.subrange(0, whole.len() as int) =~= whole);
        assert(trims_to(whole, whole, 0, whole.len() as int));
        assert(is_trimmed(whole, whole));
    }
}

} // verus!
