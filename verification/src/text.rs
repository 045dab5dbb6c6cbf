//! Text that the library builds and reads: digits, joins, trims and splits.

use vstd::prelude::*;

verus! {

/// The lower-case hexadecimal digit for `value`.
pub open spec fn hex_digit(value: int) -> char {
    if value < 10 {
        ('0' as int + value) as char
    } else {
        ('a' as int + (value - 10)) as char
    }
}

/// Two hexadecimal digits for each byte, high digit first.
pub open spec fn hex_text(bytes: Seq<u8>) -> Seq<char>
    decreases bytes.len(),
{
    if bytes.len() == 0 {
        Seq::empty()
    } else {
        hex_text(bytes.drop_last()).push(hex_digit(bytes.last() as int / 16)).push(
            hex_digit(bytes.last() as int % 16),
        )
    }
}

/// Different bytes have different hexadecimal texts.
pub proof fn hex_text_is_injective(one: Seq<u8>, other: Seq<u8>)
    requires
        hex_text(one) == hex_text(other),
    ensures
        one == other,
    decreases one.len(),
{
    hex_text_len(one);
    hex_text_len(other);
    if one.len() > 0 {
        let text = hex_text(one);
        let n = text.len();
        let a = one.last() as int;
        let b = other.last() as int;
        assert(text[n - 1] == hex_digit(a % 16) && text[n - 1] == hex_digit(b % 16));
        assert(text[n - 2] == hex_digit(a / 16) && text[n - 2] == hex_digit(b / 16));
        assert(hex_text(one).take(n - 2) =~= hex_text(one.drop_last()));
        assert(hex_text(other).take(n - 2) =~= hex_text(other.drop_last()));
        hex_text_is_injective(one.drop_last(), other.drop_last());
        assert(one =~= one.drop_last().push(one.last()));
        assert(other =~= other.drop_last().push(other.last()));
    } else {
        assert(one =~= other);
    }
}

/// There are two hexadecimal digits for each byte.
pub proof fn hex_text_len(bytes: Seq<u8>)
    ensures
        hex_text(bytes).len() == 2 * bytes.len(),
    decreases bytes.len(),
{
    if bytes.len() > 0 {
        hex_text_len(bytes.drop_last());
    }
}

/// The hexadecimal digit for `value` as a one-character text.
fn digit_text(value: u8) -> (text: &'static str)
    requires
        value < 16,
    ensures
        text@ == seq![hex_digit(value as int)],
{
    proof {
        reveal_strlit("0");
        reveal_strlit("1");
        reveal_strlit("2");
        reveal_strlit("3");
        reveal_strlit("4");
        reveal_strlit("5");
        reveal_strlit("6");
        reveal_strlit("7");
        reveal_strlit("8");
        reveal_strlit("9");
        reveal_strlit("a");
        reveal_strlit("b");
        reveal_strlit("c");
        reveal_strlit("d");
        reveal_strlit("e");
        reveal_strlit("f");
    }
    let text = match value {
        0 => "0",
        1 => "1",
        2 => "2",
        3 => "3",
        4 => "4",
        5 => "5",
        6 => "6",
        7 => "7",
        8 => "8",
        9 => "9",
        10 => "a",
        11 => "b",
        12 => "c",
        13 => "d",
        14 => "e",
        _ => "f",
    };
    assert(text@ =~= seq![hex_digit(value as int)]);
    text
}

/// Writes each byte as two hexadecimal digits.
pub fn hex_encode(bytes: &[u8]) -> (text: String)
    ensures
        text@ == hex_text(bytes@),
{
    let mut text = String::new();
    let mut i: usize = 0;
    while i < bytes.len()
        invariant
            i <= bytes@.len(),
            text@ == hex_text(bytes@.take(i as int)),
        decreases bytes@.len() - i,
    {
        let byte: u8 = bytes[i];
        text.append(digit_text(byte / 16));
        text.append(digit_text(byte % 16));
        proof {
            let next = bytes@.take(i + 1);
            assert(next.drop_last() =~= bytes@.take(i as int));
            assert(text@ =~= hex_text(next));
        }
        i = i + 1;
    }
    assert(bytes@.take(bytes@.len() as int) =~= bytes@);
    text
}

/// The bytes of two texts one after the other are those of the first and then those of
/// the second.
pub proof fn encoded_in_two_parts(first: Seq<char>, second: Seq<char>)
    ensures
        vstd::utf8::encode_utf8(first + second) == vstd::utf8::encode_utf8(first)
            + vstd::utf8::encode_utf8(second),
    decreases first.len(),
{
    if first.len() == 0 {
        assert(first + second =~= second);
        assert(vstd::utf8::encode_utf8(first) + vstd::utf8::encode_utf8(second)
            =~= vstd::utf8::encode_utf8(second));
    } else {
        encoded_in_two_parts(first.drop_first(), second);
        assert((first + second).drop_first() =~= first.drop_first() + second);
        assert(vstd::utf8::encode_utf8(first + second) =~= vstd::utf8::encode_utf8(first)
            + vstd::utf8::encode_utf8(second));
    }
}

/// The decimal digits of `n`.
pub open spec fn decimal_text(n: nat) -> Seq<char>
    decreases n,
{
    if n < 10 {
        seq![hex_digit(n as int)]
    } else {
        decimal_text(n / 10).push(hex_digit(n as int % 10))
    }
}

/// The hexadecimal digits of `n`, filled up in front with zeros to at least `width`.
pub open spec fn padded_hex_text(n: nat, width: nat) -> Seq<char>
    decreases n + width,
{
    if n < 16 && width <= 1 {
        seq![hex_digit(n as int)]
    } else {
        padded_hex_text(
            n / 16,
            if width == 0 {
                0
            } else {
                (width - 1) as nat
            },
        ).push(hex_digit(n as int % 16))
    }
}

/// Writes `n` in decimal.
pub fn decimal(n: u64) -> (text: String)
    ensures
        text@ == decimal_text(n as nat),
    decreases n,
{
    let mut text = if n < 10 {
        String::new()
    } else {
        decimal(n / 10)
    };
    text.append(digit_text((n % 10) as u8));
    assert(text@ =~= decimal_text(n as nat));
    text
}

/// Writes `n` in hexadecimal, with at least `width` digits.
pub fn padded_hex(n: u64, width: u32) -> (text: String)
    ensures
        text@ == padded_hex_text(n as nat, width as nat),
    decreases n + width,
{
    let mut text = if n < 16 && width <= 1 {
        String::new()
    } else {
        padded_hex(
            n / 16,
            if width == 0 {
                0
            } else {
                width - 1
            },
        )
    };
    text.append(digit_text((n % 16) as u8));
    assert(text@ =~= padded_hex_text(n as nat, width as nat));
    text
}

/// The path to `part` under `base`. A part that starts at the root replaces the base.
pub open spec fn joined(base: Seq<char>, part: Seq<char>) -> Seq<char> {
    if part.len() > 0 && part[0] == '/' {
        part
    } else if base.len() == 0 || base.last() == '/' {
        base + part
    } else {
        base + seq!['/'] + part
    }
}

/// Joins two parts of a path.
pub fn join(base: &str, part: &str) -> (path: String)
    ensures
        path@ == joined(base@, part@),
{
    if part.unicode_len() > 0 {
        if part.get_char(0) == '/' {
            return part.to_owned();
        }
    }
    let len: usize = base.unicode_len();
    let mut path = base.to_owned();
    if len > 0 {
        if base.get_char(len - 1) != '/' {
            proof {
                reveal_strlit("/");
                assert("/"@ =~= seq!['/']);
            }
            path.append("/");
        }
    }
    path.append(part);
    path
}

/// Whether `c` has the Unicode property White_Space.
pub open spec fn is_space(c: char) -> bool {
    ||| '\u{9}' <= c <= '\u{d}'
    ||| c == ' '
    ||| c == '\u{85}'
    ||| c == '\u{a0}'
    ||| c == '\u{1680}'
    ||| '\u{2000}' <= c <= '\u{200a}'
    ||| c == '\u{2028}'
    ||| c == '\u{2029}'
    ||| c == '\u{202f}'
    ||| c == '\u{205f}'
    ||| c == '\u{3000}'
}

/// `text` without the white space in front.
pub open spec fn start_trimmed(text: Seq<char>) -> Seq<char>
    decreases text.len(),
{
    if text.len() > 0 && is_space(text[0]) {
        start_trimmed(text.skip(1))
    } else {
        text
    }
}

/// `text` without the white space at the end.
pub open spec fn end_trimmed(text: Seq<char>) -> Seq<char>
    decreases text.len(),
{
    if text.len() > 0 && is_space(text.last()) {
        end_trimmed(text.drop_last())
    } else {
        text
    }
}

/// `text` without white space in front and at the end.
pub open spec fn trimmed(text: Seq<char>) -> Seq<char> {
    end_trimmed(start_trimmed(text))
}

/// Whether `c` is white space.
fn space(c: char) -> (b: bool)
    ensures
        b == is_space(c),
{
    ('\u{9}' <= c && c <= '\u{d}') || c == ' ' || c == '\u{85}' || c == '\u{a0}' || c == '\u{1680}'
        || ('\u{2000}' <= c && c <= '\u{200a}') || c == '\u{2028}' || c == '\u{2029}' || c
        == '\u{202f}' || c == '\u{205f}' || c == '\u{3000}'
}

/// The characters of `text`.
fn chars_of(text: &str) -> (chars: Vec<char>)
    ensures
        chars@ == text@,
{
    let mut chars: Vec<char> = Vec::new();
    let len: usize = text.unicode_len();
    let mut i: usize = 0;
    while i < len
        invariant
            i <= len,
            len == text@.len(),
            chars@ =~= text@.take(i as int),
        decreases len - i,
    {
        chars.push(text.get_char(i));
        i = i + 1;
    }
    chars
}

/// Copies `text` without white space in front and at the end.
pub fn trim(text: &str) -> (cut: String)
    ensures
        cut@ == trimmed(text@),
{
    let chars = chars_of(text);
    let mut start: usize = 0;
    assert(text@.skip(0) =~= text@);
    while start < chars.len() && space(chars[start])
        invariant
            start <= chars@.len(),
            chars@ == text@,
            start_trimmed(text@) == start_trimmed(text@.skip(start as int)),
        decreases chars@.len() - start,
    {
        assert(text@.skip(start as int).skip(1) =~= text@.skip(start + 1));
        start = start + 1;
    }
    let ghost rest = text@.skip(start as int);
    let mut end: usize = chars.len();
    assert(text@.subrange(start as int, end as int) =~= rest);
    while start < end && space(chars[end - 1])
        invariant
            start <= end <= chars@.len(),
            chars@ == text@,
            end_trimmed(rest) == end_trimmed(text@.subrange(start as int, end as int)),
        decreases end,
    {
        assert(text@.subrange(start as int, end as int).drop_last() =~= text@.subrange(
            start as int,
            end - 1,
        ));
        end = end - 1;
    }
    text.substring_char(start, end).to_owned()
}

/// The parts of `text` between the separators.
pub open spec fn parts_of(text: Seq<char>, separator: char) -> Seq<Seq<char>>
    decreases text.len(),
{
    if text.len() == 0 {
        seq![Seq::empty()]
    } else {
        let before = parts_of(text.drop_last(), separator);
        if text.last() == separator {
            before.push(Seq::empty())
        } else {
            before.drop_last().push(before.last().push(text.last()))
        }
    }
}

/// The values of texts.
pub open spec fn views(texts: Seq<String>) -> Seq<Seq<char>> {
    Seq::new(texts.len(), |i: int| texts[i]@)
}

/// Splits `text` at the separators.
pub fn split(text: &str, separator: char) -> (parts: Vec<String>)
    ensures
        views(parts@) == parts_of(text@, separator),
{
    let chars = chars_of(text);
    let mut parts: Vec<String> = Vec::new();
    let mut start: usize = 0;
    let mut i: usize = 0;
    assert(text@.subrange(0, 0) =~= Seq::empty());
    assert(parts_of(text@.take(0), separator) =~= views(parts@).push(text@.subrange(0, 0)));
    while i < chars.len()
        invariant
            chars@ == text@,
            start <= i <= chars@.len(),
            parts_of(text@.take(i as int), separator) =~= views(parts@).push(
                text@.subrange(start as int, i as int),
            ),
        decreases chars@.len() - i,
    {
        let ghost next = text@.take(i + 1);
        let ghost before = parts_of(text@.take(i as int), separator);
        let ghost done = views(parts@);
        assert(next.drop_last() =~= text@.take(i as int));
        assert(before.drop_last() =~= done);
        if chars[i] == separator {
            parts.push(text.substring_char(start, i).to_owned());
            start = i + 1;
            assert(text@.subrange(start as int, i + 1) =~= Seq::empty());
            assert(views(parts@) =~= before);
        } else {
            assert(text@.subrange(start as int, i + 1) =~= before.last().push(text@[i as int]));
        }
        i = i + 1;
    }
    assert(text@.take(text@.len() as int) =~= text@);
    parts.push(text.substring_char(start, chars.len()).to_owned());
    assert(views(parts@) =~= parts_of(text@, separator));
    parts
}

/// The last of the parts of a path that names something: empty parts and `.` do not,
/// and what `..` names cannot be told from the path.
pub open spec fn named_part(parts: Seq<Seq<char>>) -> Option<Seq<char>>
    decreases parts.len(),
{
    if parts.len() == 0 {
        None
    } else if parts.last().len() == 0 || parts.last() == seq!['.'] {
        named_part(parts.drop_last())
    } else if parts.last() == seq!['.', '.'] {
        None
    } else {
        Some(parts.last())
    }
}

/// The name of the file that a path leads to, if the path tells.
pub open spec fn file_name_of(path: Seq<char>) -> Option<Seq<char>> {
    named_part(parts_of(path, '/'))
}

/// The name of the file that a path leads to, if the path tells.
pub fn file_name(path: &str) -> (name: Option<String>)
    ensures
        name is Some <==> file_name_of(path@) is Some,
        name matches Some(found) ==> file_name_of(path@) == Some(found@),
{
    let parts = split(path, '/');
    let ghost all = parts_of(path@, '/');
    let mut end: usize = parts.len();
    assert(all.take(end as int) =~= all);
    while end > 0
        invariant
            end <= parts@.len(),
            views(parts@) == all,
            all == parts_of(path@, '/'),
            file_name_of(path@) == named_part(all.take(end as int)),
        decreases end,
    {
        let part: &str = parts[end - 1].as_str();
        let ghost front = all.take(end as int);
        proof {
            reveal_strlit(".");
            reveal_strlit("..");
            assert("."@ =~= seq!['.']);
            assert(".."@ =~= seq!['.', '.']);
            assert(front.drop_last() =~= all.take(end - 1));
        }
        if part.is_empty() || parts[end - 1] == ".".to_owned() {
            end = end - 1;
        } else if parts[end - 1] == "..".to_owned() {
            return None;
        } else {
            return Some(part.to_owned());
        }
    }
    None
}

/// `text` without the prefixes `0x` in front.
pub open spec fn without_hex_prefix(text: Seq<char>) -> Seq<char>
    decreases text.len(),
{
    if text.len() >= 2 && text[0] == '0' && text[1] == 'x' {
        without_hex_prefix(text.skip(2))
    } else {
        text
    }
}

/// The value of a hexadecimal digit in either case.
pub open spec fn digit_value(c: char) -> Option<int> {
    if '0' <= c <= '9' {
        Some(c as int - '0' as int)
    } else if 'a' <= c <= 'f' {
        Some(c as int - 'a' as int + 10)
    } else if 'A' <= c <= 'F' {
        Some(c as int - 'A' as int + 10)
    } else {
        None
    }
}

/// The number that hexadecimal digits write, if they are all digits.
pub open spec fn digits_value(text: Seq<char>) -> Option<int>
    decreases text.len(),
{
    if text.len() == 0 {
        Some(0)
    } else {
        match (digits_value(text.drop_last()), digit_value(text.last())) {
            (Some(high), Some(low)) => Some(high * 16 + low),
            _ => None,
        }
    }
}

/// Hexadecimal digits, however many zeros are in front, write the number that they
/// were made from.
pub proof fn padded_hex_reads_back(n: nat, width: nat)
    ensures
        digits_value(padded_hex_text(n, width)) == Some(n as int),
        padded_hex_text(n, width).len() >= width,
        padded_hex_text(n, width).len() >= 1,
    decreases n + width,
{
    let text = padded_hex_text(n, width);
    if n < 16 && width <= 1 {
        assert(text.drop_last() =~= Seq::empty());
        assert(digits_value(text.drop_last()) == Some(0int));
    } else {
        let shorter = if width == 0 {
            0
        } else {
            (width - 1) as nat
        };
        padded_hex_reads_back(n / 16, shorter);
        assert(text.drop_last() =~= padded_hex_text(n / 16, shorter));
    }
}

/// The digits of a number, behind the plus sign if there is one before more text.
pub open spec fn without_plus(text: Seq<char>) -> Seq<char> {
    if text.len() > 1 && text[0] == '+' {
        text.skip(1)
    } else {
        text
    }
}

/// The `usize` that `text` writes in hexadecimal, with white space around it, prefixes
/// `0x` and a plus sign allowed.
pub open spec fn hex_size(text: Seq<char>) -> Option<int> {
    let digits = without_plus(without_hex_prefix(trimmed(text)));
    match digits_value(digits) {
        Some(value) if digits.len() > 0 && value <= usize::MAX => Some(value),
        _ => None,
    }
}

/// The value of a hexadecimal digit in either case.
fn digit(c: char) -> (value: Option<u8>)
    ensures
        value is Some <==> digit_value(c) is Some,
        value matches Some(n) ==> digit_value(c) == Some(n as int) && n < 16,
{
    if '0' <= c && c <= '9' {
        Some((c as u32 - '0' as u32) as u8)
    } else if 'a' <= c && c <= 'f' {
        Some((c as u32 - 'a' as u32 + 10) as u8)
    } else if 'A' <= c && c <= 'F' {
        Some((c as u32 - 'A' as u32 + 10) as u8)
    } else {
        None
    }
}

/// Digits in front of others write no greater number than all together.
proof fn digits_value_grows(text: Seq<char>, short: int)
    requires
        0 <= short <= text.len(),
    ensures
        digits_value(text) matches Some(value) ==> digits_value(text.take(short)) matches Some(
            front,
        ) && 0 <= front <= value,
    decreases text.len(),
{
    if short < text.len() {
        digits_value_grows(text.drop_last(), short);
        assert(text.drop_last().take(short) =~= text.take(short));
    } else {
        assert(text.take(short) =~= text);
        if text.len() > 0 {
            digits_value_grows(text.drop_last(), text.len() - 1);
        }
    }
}

/// Reads a `usize` in hexadecimal, as the kernel writes the size of a mapping.
pub fn parse_hex_size(text: &str) -> (size: Option<usize>)
    ensures
        size is Some <==> hex_size(text@) is Some,
        size matches Some(n) ==> hex_size(text@) == Some(n as int),
{
    let cut = trim(text);
    let chars = chars_of(cut.as_str());
    let end: usize = chars.len();
    let ghost whole = trimmed(text@);
    let mut start: usize = 0;
    assert(whole.skip(0) =~= whole);
    while end - start >= 2 && chars[start] == '0' && chars[start + 1] == 'x'
        invariant
            chars@ == whole,
            end == chars@.len(),
            start <= end,
            without_hex_prefix(whole) == without_hex_prefix(whole.skip(start as int)),
        decreases end - start,
    {
        assert(whole.skip(start as int).skip(2) =~= whole.skip(start + 2));
        start = start + 2;
    }
    let ghost bare = whole.skip(start as int);
    if end - start > 1 && chars[start] == '+' {
        assert(bare.skip(1) =~= whole.skip(start + 1));
        start = start + 1;
    }
    let ghost digits = without_plus(bare);
    if start == end {
        return None;
    }
    let mut value: usize = 0;
    let mut i: usize = start;
    assert(digits.take(0) =~= Seq::empty());
    while i < end
        invariant
            chars@ == whole,
            end == chars@.len(),
            start <= i <= end,
            start < end,
            digits == whole.skip(start as int),
            hex_size(text@) == (match digits_value(digits) {
                Some(value) if digits.len() > 0 && value <= usize::MAX => Some(value),
                _ => None,
            }),
            digits_value(digits.take(i - start)) == Some(value as int),
        decreases end - i,
    {
        let ghost next = digits.take(i - start + 1);
        assert(next.drop_last() =~= digits.take(i - start));
        proof {
            digits_value_grows(digits, i - start + 1);
        }
        let low: u8 = match digit(chars[i]) {
            Some(low) => low,
            None => {
                return None;
            },
        };
        let high: usize = match value.checked_mul(16) {
            Some(high) => high,
            None => {
                return None;
            },
        };
        value = match high.checked_add(low as usize) {
            Some(sum) => sum,
            None => {
                return None;
            },
        };
        i = i + 1;
    }
    assert(digits.take(end - start) =~= digits);
    Some(value)
}

} // verus!
