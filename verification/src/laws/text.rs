//! Laws of the texts: how they are cut, joined and read as numbers.
use crate::text::{
    decimal, digit_of, digits_value, is_alphanumeric, is_digit, is_white, joined, lines_of,
    lowercase, signed_value, spaces, split_of, stripped_prefix, texts, trim_end_marks,
    trim_end_white, trim_start, trimmed, unsigned_value, without_return,
};
use vstd::prelude::*;

verus! {

/// Every character of `s` is one of the Unicode `White_Space` characters.
pub open spec fn is_blank(s: Seq<char>) -> bool {
    forall|i: int| 0 <= i < s.len() ==> is_white(#[trigger] s[i])
}

/// White space is tabs, line and page breaks, and the spaces of Unicode.
pub proof fn law_white_space(c: char)
    ensures
        is_white(c) <==> (c == ' ' || c == '\t' || c == '\n' || c == '\u{b}' || c == '\u{c}' || c
            == '\r' || c == '\u{85}' || c == '\u{a0}' || c == '\u{1680}' || ('\u{2000}' <= c
            && c <= '\u{200a}') || c == '\u{2028}' || c == '\u{2029}' || c == '\u{202f}' || c
            == '\u{205f}' || c == '\u{3000}'),
{
}

/// Digits and letters are those of ASCII.
pub proof fn law_letters_and_digits(c: char)
    ensures
        is_digit(c) <==> ('0' <= c && c <= '9'),
        is_alphanumeric(c) <==> (('0' <= c && c <= '9') || ('a' <= c && c <= 'z') || ('A' <= c && c
            <= 'Z')),
{
}

proof fn lemma_blank_start(blank: Seq<char>, rest: Seq<char>)
    requires
        is_blank(blank),
        rest.len() == 0 || !is_white(rest.first()),
    ensures
        trim_start(blank + rest) == rest,
    decreases blank.len(),
{
    let s = blank + rest;
    if blank.len() > 0 {
        assert(is_white(blank[0]));
        assert(s.first() == blank[0]);
        let next = blank.drop_first();
        assert forall|i: int| 0 <= i < next.len() implies is_white(#[trigger] next[i]) by {
            assert(next[i] == blank[i + 1]);
        }
        lemma_blank_start(next, rest);
        assert(s.drop_first() == next + rest);
    } else {
        assert(s == rest);
    }
}

proof fn lemma_blank_end(rest: Seq<char>, blank: Seq<char>)
    requires
        is_blank(blank),
        rest.len() == 0 || !is_white(rest.last()),
    ensures
        trim_end_white(rest + blank) == rest,
    decreases blank.len(),
{
    let s = rest + blank;
    if blank.len() > 0 {
        assert(is_white(blank[blank.len() - 1]));
        assert(s.last() == blank.last());
        let next = blank.drop_last();
        assert forall|i: int| 0 <= i < next.len() implies is_white(#[trigger] next[i]) by {
            assert(next[i] == blank[i]);
        }
        lemma_blank_end(rest, next);
        assert(s.drop_last() == rest + next);
    } else {
        assert(s == rest);
    }
}

/// Trimming takes off the white space before and behind a text, all of it and nothing
/// else.
pub proof fn law_trimming(before: Seq<char>, core: Seq<char>, behind: Seq<char>)
    requires
        is_blank(before),
        is_blank(behind),
        core.len() > 0 ==> !is_white(core.first()) && !is_white(core.last()),
    ensures
        trimmed(before + core + behind) == core,
{
    if core.len() > 0 {
        assert(before + core + behind == before + (core + behind));
        assert((core + behind).first() == core.first());
        lemma_blank_start(before, core + behind);
        lemma_blank_end(core, behind);
    } else {
        let blank = before + behind;
        assert(before + core + behind == blank + core);
        assert forall|i: int| 0 <= i < blank.len() implies is_white(#[trigger] blank[i]) by {
            if i < before.len() {
                assert(blank[i] == before[i]);
            } else {
                assert(blank[i] == behind[i - before.len()]);
            }
        }
        lemma_blank_start(blank, core);
    }
}

/// The marks at the end of a text go, all of them and nothing else.
pub proof fn law_marks_go(core: Seq<char>, marks: Seq<char>, first: char, second: char)
    requires
        core.len() > 0 ==> core.last() != first && core.last() != second,
        forall|i: int|
            0 <= i < marks.len() ==> #[trigger] marks[i] == first || marks[i] == second,
    ensures
        trim_end_marks(core + marks, first, second) == core,
    decreases marks.len(),
{
    let s = core + marks;
    if marks.len() > 0 {
        let next = marks.drop_last();
        assert(marks[marks.len() - 1] == first || marks[marks.len() - 1] == second);
        assert forall|i: int| 0 <= i < next.len() implies #[trigger] next[i] == first || next[i]
            == second by {
            assert(next[i] == marks[i]);
        }
        law_marks_go(core, next, first, second);
        assert(s.drop_last() == core + next);
        assert(s.last() == marks.last());
    } else {
        assert(s == core);
    }
}

/// The first line of a text is what stands before the first line feed, without the
/// carriage return before it, and the other lines are those of what stands behind it.
pub proof fn law_first_line(line: Seq<char>, rest: Seq<char>)
    requires
        !line.contains('\n'),
    ensures
        line.len() == 0 || line.last() != '\r' ==> lines_of(line + seq!['\n'] + rest) == seq![line]
            + lines_of(rest),
        lines_of(line + seq!['\r', '\n'] + rest) == seq![line] + lines_of(rest),
{
    let ended = line + seq!['\r'];
    assert forall|i: int| 0 <= i < ended.len() implies ended[i] != '\n' by {
        if i < line.len() {
            assert(line.contains(line[i]));
        }
    }
    assert forall|i: int| 0 <= i < line.len() implies line[i] != '\n' by {
        assert(line.contains(line[i]));
    }
    lemma_first_line(line, rest);
    lemma_first_line(ended, rest);
    assert(line + seq!['\r', '\n'] + rest == ended + seq!['\n'] + rest);
    assert(ended.drop_last() == line);
}

proof fn lemma_first_line(line: Seq<char>, rest: Seq<char>)
    requires
        forall|i: int| 0 <= i < line.len() ==> line[i] != '\n',
    ensures
        lines_of(line + seq!['\n'] + rest) == seq![without_return(line)] + lines_of(rest),
{
    let s = line + seq!['\n'] + rest;
    assert(s[line.len() as int] == '\n');
    assert(s.contains('\n'));
    s.index_of_first_ensures('\n');
    let end = s.index_of_first('\n')->0;
    assert(end == line.len()) by {
        if end < line.len() {
            assert(s[end] == line[end]);
        }
    }
    assert(s.take(end) == line);
    assert(s.skip(end + 1) == rest);
}

/// A text without a line feed is one line, and an empty text is none.
pub proof fn law_last_line(line: Seq<char>)
    requires
        !line.contains('\n'),
    ensures
        lines_of(line) == if line.len() == 0 {
            Seq::<Seq<char>>::empty()
        } else {
            seq![line]
        },
{
}

/// The first part of a text is what stands before the first mark, and the other parts are
/// those of what stands behind it; a text without the mark is one part.
pub proof fn law_parts(part: Seq<char>, mark: char, rest: Seq<char>)
    requires
        !part.contains(mark),
    ensures
        split_of(part, mark) == seq![part],
        split_of(part + seq![mark] + rest, mark) == seq![part] + split_of(rest, mark),
{
    let s = part + seq![mark] + rest;
    assert(s[part.len() as int] == mark);
    assert(s.contains(mark));
    s.index_of_first_ensures(mark);
    let end = s.index_of_first(mark)->0;
    assert(end == part.len()) by {
        if end < part.len() {
            assert(s[end] == part[end]);
            assert(part.contains(part[end]));
        }
    }
    assert(s.take(end) == part);
    assert(s.skip(end + 1) == rest);
}

/// Joining puts the mark between the parts, and nowhere else.
pub proof fn law_joining(a: Seq<Seq<char>>, b: Seq<Seq<char>>, mark: Seq<char>, part: Seq<char>)
    ensures
        joined(seq![], mark) == Seq::<char>::empty(),
        joined(seq![part], mark) == part,
        a.len() > 0 && b.len() > 0 ==> joined(a + b, mark) == joined(a, mark) + mark + joined(
            b,
            mark,
        ),
    decreases b.len(),
{
    if a.len() > 0 && b.len() > 0 {
        let all = a + b;
        assert(all.drop_last() == a + b.drop_last());
        assert(all.last() == b.last());
        if b.len() > 1 {
            law_joining(a, b.drop_last(), mark, part);
            assert(joined(all, mark) == joined(a, mark) + mark + joined(b, mark));
        } else {
            assert(a + b.drop_last() == a);
            assert(joined(all, mark) == joined(a, mark) + mark + joined(b, mark));
        }
    }
}

/// A prefix is taken off where it stands, and nowhere else.
pub proof fn law_prefix(prefix: Seq<char>, rest: Seq<char>, s: Seq<char>)
    ensures
        stripped_prefix(prefix + rest, prefix) == Some(rest),
        stripped_prefix(s, prefix) matches Some(r) ==> s == prefix + r,
{
    assert((prefix + rest).take(prefix.len() as int) == prefix);
    assert((prefix + rest).skip(prefix.len() as int) == rest);
    if prefix.is_prefix_of(s) {
        assert(s == prefix + s.skip(prefix.len() as int));
    }
}

/// A digit behind a row of digits makes ten times as much and the digit more.
pub proof fn law_digits(s: Seq<char>, n: nat)
    requires
        n < 10,
    ensures
        digits_value(seq![]) == 0,
        digits_value(s.push("0123456789"@[n as int])) == 10 * digits_value(s) + n,
{
    reveal_strlit("0123456789");
    let longer = s.push("0123456789"@[n as int]);
    assert(longer.drop_last() == s);
}

/// A number is written in decimal digits that read as it, without a zero before them.
pub proof fn law_decimal(n: nat)
    ensures
        digits_value(decimal(n)) == n,
        decimal(n).len() > 0,
        forall|i: int|
            0 <= i < decimal(n).len() ==> '0' <= #[trigger] decimal(n)[i] && decimal(n)[i] <= '9',
        n > 0 ==> decimal(n)[0] != '0',
        n == 0 ==> decimal(n).len() == 1,
    decreases n,
{
    if n < 10 {
        assert(decimal(n).drop_last() == Seq::<char>::empty());
        assert(digits_value(Seq::<char>::empty()) == 0);
    } else {
        law_decimal(n / 10);
        let head = decimal(n / 10);
        assert(decimal(n) == head.push(digit_of(n % 10)));
        assert(decimal(n).drop_last() == head);
        assert forall|i: int| 0 <= i < decimal(n).len() implies '0' <= #[trigger] decimal(n)[i]
            && decimal(n)[i] <= '9' by {
            if i < head.len() {
                assert(decimal(n)[i] == head[i]);
            }
        }
        assert(decimal(n)[0] == head[0]);
    }
}

/// At least one character, each from `0` to `9`.
pub open spec fn is_row_of_digits(s: Seq<char>) -> bool {
    s.len() > 0 && forall|i: int| 0 <= i < s.len() ==> '0' <= #[trigger] s[i] && s[i] <= '9'
}

/// A row of digits reads as its value, up to the limit, also with a plus sign before it.
pub proof fn law_unsigned(digits: Seq<char>, max: nat)
    requires
        is_row_of_digits(digits),
    ensures
        unsigned_value(digits, max) == if digits_value(digits) <= max {
            Some(digits_value(digits))
        } else {
            None
        },
        unsigned_value(seq!['+'] + digits, max) == unsigned_value(digits, max),
{
    assert forall|i: int| 0 <= i < digits.len() implies is_digit(#[trigger] digits[i]) by {}
    assert(digits[0] != '+');
    assert((seq!['+'] + digits).skip(1) == digits);
}

/// What reads as an unsigned number is a row of digits, with a plus sign before it or
/// without.
pub proof fn law_unsigned_only(text: Seq<char>, max: nat)
    requires
        unsigned_value(text, max) is Some,
    ensures
        is_row_of_digits(text) || (text.len() > 0 && text[0] == '+' && is_row_of_digits(
            text.skip(1),
        )),
{
    let digits = if text.len() > 0 && text[0] == '+' {
        text.skip(1)
    } else {
        text
    };
    assert forall|i: int| 0 <= i < digits.len() implies '0' <= #[trigger] digits[i] && digits[i]
        <= '9' by {
        assert(is_digit(digits[i]));
    }
}

/// A row of digits reads as its value up to the largest `i32`, and with a minus sign
/// before it as the value below zero down to the smallest.
pub proof fn law_signed(digits: Seq<char>, text: Seq<char>)
    requires
        is_row_of_digits(digits),
    ensures
        signed_value(digits) == if digits_value(digits) <= 2147483647 {
            Some(digits_value(digits) as int)
        } else {
            None
        },
        signed_value(seq!['+'] + digits) == signed_value(digits),
        signed_value(seq!['-'] + digits) == if digits_value(digits) <= 2147483648 {
            Some(-(digits_value(digits) as int))
        } else {
            None
        },
        signed_value(text) is Some ==> is_row_of_digits(text) || (text.len() > 0 && (text[0] == '+'
            || text[0] == '-') && is_row_of_digits(text.skip(1))),
{
    law_unsigned(digits, 2147483647);
    assert forall|i: int| 0 <= i < digits.len() implies is_digit(#[trigger] digits[i]) by {}
    assert(digits[0] != '-' && digits[0] != '+');
    assert((seq!['-'] + digits).skip(1) == digits);
    if signed_value(text) is Some {
        if text[0] == '-' {
            let rest = text.skip(1);
            assert forall|i: int| 0 <= i < rest.len() implies '0' <= #[trigger] rest[i] && rest[i]
                <= '9' by {
                assert(is_digit(rest[i]));
            }
        } else {
            law_unsigned_only(text, 2147483647);
        }
    }
}

/// Lower case changes the capital letters of ASCII and nothing else: each becomes the
/// letter that has its place in the alphabet.
pub proof fn law_lower_case(s: Seq<char>, i: int)
    requires
        0 <= i < s.len(),
    ensures
        lowercase(s).len() == s.len(),
        'A' <= s[i] && s[i] <= 'Z' ==> {
            let c = lowercase(s)[i];
            'a' <= c && c <= 'z' && c as u32 - 'a' as u32 == s[i] as u32 - 'A' as u32
        },
        !('A' <= s[i] && s[i] <= 'Z') ==> lowercase(s)[i] == s[i],
{
}

/// A pad is made of as many spaces as it is long.
pub proof fn law_spaces(n: nat, i: int)
    ensures
        spaces(n).len() == n,
        0 <= i < n ==> spaces(n)[i] == ' ',
{
}

/// A list of texts stands for the texts in it, each in its place.
pub proof fn law_lists_of_texts(list: Seq<String>, i: int)
    ensures
        texts(list).len() == list.len(),
        0 <= i < list.len() ==> texts(list)[i] == list[i]@,
{
}

} // verus!
