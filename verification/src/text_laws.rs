//! What the text that the library builds and reads means.

use crate::text;
use vstd::prelude::*;

verus! {

/// The value of the hexadecimal digit `c` in lower case.
pub open spec fn nibble(c: char) -> int {
    if '0' <= c <= '9' {
        c as int - 48
    } else {
        c as int - 87
    }
}

/// Whether `c` is a hexadecimal digit in lower case.
pub open spec fn is_nibble(c: char) -> bool {
    '0' <= c <= '9' || 'a' <= c <= 'f'
}

/// Each byte has two digits, the high one first, that write it in lower-case hexadecimal.
pub proof fn hex_text_writes_each_byte(bytes: Seq<u8>, i: int)
    requires
        0 <= i < bytes.len(),
    ensures
        text::hex_text(bytes).len() == 2 * bytes.len(),
        is_nibble(text::hex_text(bytes)[2 * i]),
        is_nibble(text::hex_text(bytes)[2 * i + 1]),
        nibble(text::hex_text(bytes)[2 * i]) * 16 + nibble(text::hex_text(bytes)[2 * i + 1])
            == bytes[i],
    decreases bytes.len(),
{
    text::hex_text_len(bytes);
    text::hex_text_len(bytes.drop_last());
    if i < bytes.len() - 1 {
        hex_text_writes_each_byte(bytes.drop_last(), i);
    }
}

/// The number that decimal digits write, each ten times as heavy as the next.
pub open spec fn decimal_value(digits: Seq<char>) -> int
    decreases digits.len(),
{
    if digits.len() == 0 {
        0
    } else {
        decimal_value(digits.drop_last()) * 10 + (digits.last() as int - 48)
    }
}

/// Whether `digits` are decimal digits, at least one, and without a needless zero in
/// front.
pub open spec fn is_decimal(digits: Seq<char>) -> bool {
    &&& digits.len() > 0
    &&& forall|i: int| 0 <= i < digits.len() ==> '0' <= #[trigger] digits[i] <= '9'
    &&& digits.len() > 1 ==> digits[0] != '0'
}

/// The decimal digits of a number write that number.
pub proof fn decimal_text_reads_back(n: nat)
    ensures
        is_decimal(text::decimal_text(n)),
        decimal_value(text::decimal_text(n)) == n,
        n > 0 ==> text::decimal_text(n)[0] != '0',
    decreases n,
{
    let digits = text::decimal_text(n);
    if n < 10 {
        assert(digits.drop_last() =~= Seq::empty());
        assert(decimal_value(digits.drop_last()) == 0);
    } else {
        decimal_text_reads_back(n / 10);
        assert(digits.drop_last() =~= text::decimal_text(n / 10));
        assert(digits[0] == text::decimal_text(n / 10)[0]);
    }
}

/// The number that lower-case hexadecimal digits write, each sixteen times as heavy as
/// the next.
pub open spec fn nibbles_value(digits: Seq<char>) -> int
    decreases digits.len(),
{
    if digits.len() == 0 {
        0
    } else {
        nibbles_value(digits.drop_last()) * 16 + nibble(digits.last())
    }
}

/// The padded hexadecimal digits of a number write that number, in as many digits as are
/// asked for, and in more only where those are needed.
pub proof fn padded_hex_text_reads_back(n: nat, width: nat)
    ensures
        nibbles_value(text::padded_hex_text(n, width)) == n,
        text::padded_hex_text(n, width).len() >= width,
        text::padded_hex_text(n, width).len() >= 1,
        text::padded_hex_text(n, width).len() > width && text::padded_hex_text(n, width).len() > 1
            ==> text::padded_hex_text(n, width)[0] != '0',
        n > 0 && text::padded_hex_text(n, width).len() > width ==> text::padded_hex_text(n, width)[0]
            != '0',
        forall|i: int|
            0 <= i < text::padded_hex_text(n, width).len() ==> is_nibble(
                #[trigger] text::padded_hex_text(n, width)[i],
            ),
    decreases n + width,
{
    let digits = text::padded_hex_text(n, width);
    if n < 16 && width <= 1 {
        assert(digits.drop_last() =~= Seq::empty());
        assert(nibbles_value(digits.drop_last()) == 0);
    } else {
        let shorter: nat = if width == 0 {
            0
        } else {
            (width - 1) as nat
        };
        padded_hex_text_reads_back(n / 16, shorter);
        assert(digits.drop_last() =~= text::padded_hex_text(n / 16, shorter));
        assert(digits[0] == text::padded_hex_text(n / 16, shorter)[0]);
    }
}

/// A part that does not start at the root goes behind the base, with a slash between the
/// two unless the base ends with one or is empty; a part that does replaces the base.
pub proof fn joined_paths(base: Seq<char>, part: Seq<char>)
    ensures
        ({
            let path = text::joined(base, part);
            &&& part.len() > 0 && part[0] == '/' ==> path == part
            &&& part.len() == 0 || part[0] != '/' ==> {
                let slash: int = if base.len() > 0 && base[base.len() - 1] != '/' {
                    1
                } else {
                    0
                };
                &&& path.len() == base.len() + slash + part.len()
                &&& path.subrange(0, base.len() as int) == base
                &&& path.subrange(base.len() + slash, path.len() as int) == part
                &&& slash == 1 ==> path[base.len() as int] == '/'
            }
        }),
{
    let path = text::joined(base, part);
    if part.len() == 0 || part[0] != '/' {
        assert(path.subrange(0, base.len() as int) =~= base);
        assert(path.subrange(path.len() - part.len(), path.len() as int) =~= part);
    }
}

/// White space is what has the Unicode property White_Space.
pub proof fn white_space(c: char)
    ensures
        text::is_space(c) <==> {
            let code = c as int;
            ||| 0x09 <= code <= 0x0d
            ||| code == 0x20
            ||| code == 0x85
            ||| code == 0xa0
            ||| code == 0x1680
            ||| 0x2000 <= code <= 0x200a
            ||| code == 0x2028
            ||| code == 0x2029
            ||| code == 0x202f
            ||| code == 0x205f
            ||| code == 0x3000
        },
{
}

/// Trimming cuts off white space at both ends, all of it and nothing else.
pub proof fn trimmed_texts(text: Seq<char>) -> (cut: (int, int))
    ensures
        0 <= cut.0 <= cut.1 <= text.len(),
        text::trimmed(text) == text.subrange(cut.0, cut.1),
        forall|i: int| 0 <= i < cut.0 ==> text::is_space(#[trigger] text[i]),
        forall|i: int| cut.1 <= i < text.len() ==> text::is_space(#[trigger] text[i]),
        cut.0 < cut.1 ==> !text::is_space(text[cut.0]) && !text::is_space(text[cut.1 - 1]),
{
    let start = start_of(text);
    let rest = text.skip(start);
    let end = end_of(rest);
    assert(rest.take(end) =~= text.subrange(start, start + end));
    assert forall|i: int| start + end <= i < text.len() implies text::is_space(
        #[trigger] text[i],
    ) by {
        assert(rest[i - start] == text[i]);
    }
    if end > 0 {
        assert(text[start + end - 1] == rest[end - 1]);
        assert(text[start] == rest[0]);
    }
    (start, start + end)
}

/// How much white space is in front.
proof fn start_of(text: Seq<char>) -> (start: int)
    ensures
        0 <= start <= text.len(),
        text::start_trimmed(text) == text.skip(start),
        forall|i: int| 0 <= i < start ==> text::is_space(#[trigger] text[i]),
        start < text.len() ==> !text::is_space(text[start]),
    decreases text.len(),
{
    if text.len() > 0 && text::is_space(text[0]) {
        let start = start_of(text.skip(1)) + 1;
        assert(text.skip(1).skip(start - 1) =~= text.skip(start));
        assert forall|i: int| 0 <= i < start implies text::is_space(#[trigger] text[i]) by {
            if i > 0 {
                assert(text.skip(1)[i - 1] == text[i]);
            }
        }
        start
    } else {
        assert(text.skip(0) =~= text);
        0
    }
}

/// Where the white space at the end begins.
proof fn end_of(text: Seq<char>) -> (end: int)
    ensures
        0 <= end <= text.len(),
        text::end_trimmed(text) == text.take(end),
        forall|i: int| end <= i < text.len() ==> text::is_space(#[trigger] text[i]),
        end > 0 ==> !text::is_space(text[end - 1]),
    decreases text.len(),
{
    if text.len() > 0 && text::is_space(text.last()) {
        let end = end_of(text.drop_last());
        assert(text.drop_last().take(end) =~= text.take(end));
        assert forall|i: int| end <= i < text.len() implies text::is_space(#[trigger] text[i]) by {
            if i < text.len() - 1 {
                assert(text.drop_last()[i] == text[i]);
            }
        }
        end
    } else {
        assert(text.take(text.len() as int) =~= text);
        text.len() as int
    }
}

/// Parts put together again, with the separator between them.
pub open spec fn rejoined(parts: Seq<Seq<char>>, separator: char) -> Seq<char>
    decreases parts.len(),
{
    if parts.len() == 0 {
        Seq::empty()
    } else if parts.len() == 1 {
        parts[0]
    } else {
        rejoined(parts.drop_last(), separator).push(separator) + parts.last()
    }
}

/// The parts of a text hold no separator, and put together again they give the text.
pub proof fn split_texts(text: Seq<char>, separator: char)
    ensures
        ({
            let parts = text::parts_of(text, separator);
            &&& parts.len() > 0
            &&& rejoined(parts, separator) == text
            &&& forall|i: int, k: int|
                0 <= i < parts.len() && 0 <= k < parts[i].len() ==> #[trigger] parts[i][k]
                    != separator
        }),
    decreases text.len(),
{
    let parts = text::parts_of(text, separator);
    if text.len() == 0 {
        assert(rejoined(parts, separator) =~= text);
    } else {
        let before = text::parts_of(text.drop_last(), separator);
        split_texts(text.drop_last(), separator);
        if text.last() == separator {
            assert(parts.drop_last() =~= before);
            assert(rejoined(parts, separator) =~= text);
        } else {
            assert(parts.drop_last() =~= before.drop_last());
            assert(parts.last() == before.last().push(text.last()));
            assert(rejoined(parts, separator) =~= rejoined(before, separator).push(text.last()));
            assert(rejoined(parts, separator) =~= text);
        }
    }
}

/// The name of a file is the last part of its path that is neither empty nor `.`, unless
/// that is `..`: what follows it are such parts alone.
pub proof fn file_names(path: Seq<char>) -> (at: int)
    ensures
        ({
            let parts = text::parts_of(path, '/');
            let name = text::file_name_of(path);
            &&& -1 <= at < parts.len()
            &&& forall|i: int|
                at < i < parts.len() ==> (#[trigger] parts[i]).len() == 0 || parts[i].len() == 1
                    && parts[i][0] == '.'
            &&& at == -1 ==> name is None
            &&& at >= 0 ==> {
                let last = parts[at];
                &&& last.len() > 0
                &&& !(last.len() == 1 && last[0] == '.')
                &&& last.len() == 2 && last[0] == '.' && last[1] == '.' ==> name is None
                &&& !(last.len() == 2 && last[0] == '.' && last[1] == '.') ==> name == Some(last)
            }
        }),
{
    named_at(text::parts_of(path, '/'))
}

/// Where the last part that is neither empty nor `.` is.
proof fn named_at(parts: Seq<Seq<char>>) -> (at: int)
    ensures
        -1 <= at < parts.len(),
        forall|i: int|
            at < i < parts.len() ==> (#[trigger] parts[i]).len() == 0 || parts[i].len() == 1
                && parts[i][0] == '.',
        at == -1 ==> text::named_part(parts) is None,
        at >= 0 ==> {
            let last = parts[at];
            &&& last.len() > 0
            &&& !(last.len() == 1 && last[0] == '.')
            &&& last.len() == 2 && last[0] == '.' && last[1] == '.' ==> text::named_part(
                parts,
            ) is None
            &&& !(last.len() == 2 && last[0] == '.' && last[1] == '.') ==> text::named_part(parts)
                == Some(last)
        },
    decreases parts.len(),
{
    if parts.len() == 0 {
        -1
    } else {
        let last = parts.last();
        if last.len() == 1 && last[0] == '.' {
            assert(last =~= seq!['.']);
        }
        if last.len() == 2 && last[0] == '.' && last[1] == '.' {
            assert(last =~= seq!['.', '.']);
        }
        if last.len() == 0 || last == seq!['.'] {
            let at = named_at(parts.drop_last());
            assert forall|i: int| at < i < parts.len() implies (#[trigger] parts[i]).len() == 0
                || parts[i].len() == 1 && parts[i][0] == '.' by {
                if i < parts.len() - 1 {
                    assert(parts.drop_last()[i] == parts[i]);
                }
            }
            at
        } else {
            parts.len() - 1
        }
    }
}

/// Whether `c` is a hexadecimal digit in either case, and which.
pub open spec fn hex_value(c: char) -> int {
    if 'A' <= c <= 'F' {
        c as int - 55
    } else {
        nibble(c)
    }
}

/// Whether `c` is a hexadecimal digit in either case.
pub open spec fn is_hex(c: char) -> bool {
    is_nibble(c) || 'A' <= c <= 'F'
}

/// The number that hexadecimal digits in either case write.
pub open spec fn hex_number(digits: Seq<char>) -> int
    decreases digits.len(),
{
    if digits.len() == 0 {
        0
    } else {
        hex_number(digits.drop_last()) * 16 + hex_value(digits.last())
    }
}

/// Digits have a value exactly if all of them are hexadecimal digits, and it is the
/// number that they write.
pub proof fn digits_write_their_value(digits: Seq<char>)
    ensures
        text::digits_value(digits) is Some <==> forall|i: int|
            0 <= i < digits.len() ==> is_hex(#[trigger] digits[i]),
        text::digits_value(digits) matches Some(value) ==> value == hex_number(digits),
    decreases digits.len(),
{
    if digits.len() > 0 {
        digits_write_their_value(digits.drop_last());
        assert forall|i: int| 0 <= i < digits.len() - 1 implies digits.drop_last()[i]
            == #[trigger] digits[i] by {}
        if text::digits_value(digits) is Some {
            assert forall|i: int| 0 <= i < digits.len() implies is_hex(#[trigger] digits[i]) by {
                if i < digits.len() - 1 {
                    assert(is_hex(digits.drop_last()[i]));
                }
            }
        }
        if forall|i: int| 0 <= i < digits.len() ==> is_hex(#[trigger] digits[i]) {
            assert forall|i: int| 0 <= i < digits.len() - 1 implies is_hex(
                #[trigger] digits.drop_last()[i],
            ) by {
                assert(is_hex(digits[i]));
            }
            assert(is_hex(digits[digits.len() - 1]));
        }
    }
}

/// A size is read exactly from hexadecimal digits, at least one, whose number fits a
/// `usize`; white space around them, prefixes `0x` and one plus sign do not count.
pub proof fn sizes_are_read(text: Seq<char>) -> (digits_at: int)
    ensures
        ({
            let cut = text::trimmed(text);
            let digits = cut.skip(digits_at);
            let size = text::hex_size(text);
            &&& 0 <= digits_at <= cut.len()
            &&& size is Some <==> digits.len() > 0 && (forall|i: int|
                0 <= i < digits.len() ==> is_hex(#[trigger] digits[i])) && hex_number(digits)
                <= usize::MAX
            &&& size matches Some(value) ==> value == hex_number(digits)
            &&& only_prefixes(cut.take(digits_at))
            &&& !(digits.len() >= 2 && digits[0] == '0' && digits[1] == 'x' && digits_at % 2 == 0)
            &&& !(digits.len() >= 2 && digits[0] == '+' && digits_at % 2 == 0)
        }),
{
    let cut = text::trimmed(text);
    let at = prefixes_end(cut);
    let bare = cut.skip(at);
    let digits_at = if bare.len() > 1 && bare[0] == '+' {
        at + 1
    } else {
        at
    };
    assert(cut.skip(digits_at) =~= text::without_plus(bare));
    digits_write_their_value(cut.skip(digits_at));
    if digits_at > at {
        assert(cut.take(digits_at).drop_last() =~= cut.take(at));
        assert(cut.take(digits_at).last() == '+');
    }
    digits_at
}

/// Whether `front` is made of prefixes `0x` and at most one plus sign behind them.
pub open spec fn only_prefixes(front: Seq<char>) -> bool {
    let prefixes = if front.len() % 2 == 1 {
        front.drop_last()
    } else {
        front
    };
    &&& front.len() % 2 == 1 ==> front.last() == '+'
    &&& forall|i: int|
        0 <= i < prefixes.len() ==> #[trigger] prefixes[i] == if i % 2 == 0 {
            '0'
        } else {
            'x'
        }
}

/// Where the prefixes `0x` end.
proof fn prefixes_end(text: Seq<char>) -> (end: int)
    ensures
        0 <= end <= text.len(),
        end % 2 == 0,
        text::without_hex_prefix(text) == text.skip(end),
        forall|i: int|
            0 <= i < end ==> #[trigger] text[i] == if i % 2 == 0 {
                '0'
            } else {
                'x'
            },
        !(text.len() >= end + 2 && text[end] == '0' && text[end + 1] == 'x'),
    decreases text.len(),
{
    if text.len() >= 2 && text[0] == '0' && text[1] == 'x' {
        let rest = text.skip(2);
        let end = prefixes_end(rest) + 2;
        assert(rest.skip(end - 2) =~= text.skip(end));
        assert forall|i: int| 0 <= i < end implies #[trigger] text[i] == if i % 2 == 0 {
            '0'
        } else {
            'x'
        } by {
            if i >= 2 {
                assert(rest[i - 2] == text[i]);
            }
        }
        end
    } else {
        assert(text.skip(0) =~= text);
        0
    }
}

/// The values of texts are those of the texts, one by one.
pub proof fn views_of_texts(texts: Seq<String>, i: int)
    requires
        0 <= i < texts.len(),
    ensures
        text::views(texts).len() == texts.len(),
        text::views(texts)[i] == texts[i]@,
{
}

} // verus!
