//! Laws of the security patch levels.
use crate::error::Refusal;
use crate::laws::text::{law_parts, law_prefix};
use crate::patch::{is_patch_value, legacy_dates, line_value, normal_patch, normal_patch_or};
use crate::text::{
    all_digits, digits_value, is_digit, is_number, lines_of, split_of, trimmed, unsigned_value,
};
use vstd::prelude::*;

verus! {

/// The number that two digits read as.
pub open spec fn two_digits(a: char, b: char) -> int {
    10 * (a as u32 - '0' as u32) + (b as u32 - '0' as u32)
}

/// A character from `0` to `9`.
pub open spec fn is_figure(c: char) -> bool {
    '0' <= c && c <= '9'
}

/// Four figures at the front, or `YYYY`.
pub open spec fn has_year(value: Seq<char>) -> bool {
    ||| value[0] == 'Y' && value[1] == 'Y' && value[2] == 'Y' && value[3] == 'Y'
    ||| is_figure(value[0]) && is_figure(value[1]) && is_figure(value[2]) && is_figure(value[3])
}

/// Two characters that read as a number from 1 to 12, or `MM`.
pub open spec fn is_month(a: char, b: char) -> bool {
    ||| a == 'M' && b == 'M'
    ||| is_figure(a) && is_figure(b) && 1 <= two_digits(a, b) <= 12
    ||| a == '+' && is_figure(b) && b != '0'
}

/// Two figures from 01 to 31, or `DD`.
pub open spec fn is_day(a: char, b: char) -> bool {
    ||| a == 'D' && b == 'D'
    ||| is_figure(a) && is_figure(b) && 1 <= two_digits(a, b) <= 31
}

/// `YYYY-MM` or `YYYY-MM-DD`, by the place of each character.
pub open spec fn is_dashed_date(value: Seq<char>) -> bool {
    &&& value.len() == 7 || value.len() == 10
    &&& has_year(value)
    &&& value[4] == '-'
    &&& is_month(value[5], value[6])
    &&& value.len() == 10 ==> value[7] == '-' && is_day(value[8], value[9])
}

proof fn lemma_two_digits(s: Seq<char>)
    requires
        s.len() == 2,
        is_figure(s[0]),
        is_figure(s[1]),
    ensures
        digits_value(s) == two_digits(s[0], s[1]),
        all_digits(s),
        is_number(s),
        unsigned_value(s, 255) == Some(two_digits(s[0], s[1]) as nat),
{
    assert(s.drop_last().drop_last() == Seq::<char>::empty());
    reveal_with_fuel(digits_value, 3);
    assert(is_digit(s[0]) && is_digit(s[1]));
    assert(s[0] != '+');
}

proof fn lemma_month(s: Seq<char>)
    requires
        s.len() == 2,
    ensures
        crate::patch::is_patch_month(s) <==> is_month(s[0], s[1]),
{
    reveal_strlit("MM");
    if is_figure(s[0]) && is_figure(s[1]) {
        lemma_two_digits(s);
    } else if s[0] == '+' {
        let rest = s.skip(1);
        assert(rest.drop_last() == Seq::<char>::empty());
        reveal_with_fuel(digits_value, 2);
        assert(rest[0] == s[1]);
        assert(is_digit(s[1]) ==> is_number(rest));
        if is_number(rest) {
            assert(is_digit(rest[0]));
        }
    } else if s != "MM"@ {
        if unsigned_value(s, 255) is Some {
            assert(is_digit(s[0]) && is_digit(s[1]));
        }
    }
    if s[0] == 'M' && s[1] == 'M' {
        assert(s == "MM"@);
    }
}

proof fn lemma_day(s: Seq<char>)
    requires
        s.len() == 2,
    ensures
        (s == "DD"@ || crate::patch::is_patch_day(s)) <==> is_day(s[0], s[1]),
{
    reveal_strlit("DD");
    if is_figure(s[0]) && is_figure(s[1]) {
        lemma_two_digits(s);
    } else if all_digits(s) {
        assert(is_digit(s[0]) && is_digit(s[1]));
    }
    if s[0] == 'D' && s[1] == 'D' {
        assert(s == "DD"@);
    }
}

proof fn lemma_year(s: Seq<char>)
    requires
        s.len() == 4,
    ensures
        crate::patch::is_patch_year(s) <==> has_year(s),
{
    reveal_strlit("YYYY");
    if all_digits(s) {
        assert(is_digit(s[0]) && is_digit(s[1]) && is_digit(s[2]) && is_digit(s[3]));
    }
    if s[0] == 'Y' && s[1] == 'Y' && s[2] == 'Y' && s[3] == 'Y' {
        assert(s == "YYYY"@);
    }
}

proof fn lemma_first_part(s: Seq<char>, mark: char)
    ensures
        s.contains(mark) ==> {
            let n = split_of(s, mark)[0].len() as int;
            &&& n < s.len()
            &&& s[n] == mark
            &&& split_of(s, mark)[0] == s.take(n)
            &&& split_of(s, mark) == seq![s.take(n)] + split_of(s.skip(n + 1), mark)
            &&& split_of(s, mark).drop_first() == split_of(s.skip(n + 1), mark)
        },
        !s.contains(mark) ==> split_of(s, mark) == seq![s],
        split_of(s, mark).len() > 0,
{
    if s.contains(mark) {
        s.index_of_first_ensures(mark);
        let n = s.index_of_first(mark)->0;
        assert(split_of(s, mark).drop_first() == split_of(s.skip(n + 1), mark));
    }
}

proof fn lemma_dashed_from_parts(value: Seq<char>)
    requires
        2 <= split_of(value, '-').len() <= 3,
        crate::patch::is_patch_year(split_of(value, '-')[0]),
        crate::patch::is_patch_month(split_of(value, '-')[1]),
        split_of(value, '-').len() == 2 || split_of(value, '-')[2] == "DD"@
            || crate::patch::is_patch_day(split_of(value, '-')[2]),
    ensures
        is_dashed_date(value),
{
    reveal_strlit("YYYY");
    reveal_strlit("MM");
    reveal_strlit("DD");
    let parts = split_of(value, '-');
    lemma_first_part(value, '-');
    let rest = value.skip(5);
    let more = split_of(rest, '-');
    assert(parts[1] == more[0]);
    lemma_year(parts[0]);
    lemma_month(parts[1]);
    lemma_first_part(rest, '-');
    assert(parts[0][0] == value[0] && parts[0][1] == value[1] && parts[0][2] == value[2]
        && parts[0][3] == value[3]);
    assert(parts.len() == 1 + more.len());
    if parts.len() == 2 {
        if rest.contains('-') {
            lemma_first_part(rest.skip(more[0].len() as int + 1), '-');
        }
        assert(rest == parts[1]);
    }
    assert(value[5] == rest[0] && value[6] == rest[1]);
    if parts.len() == 3 {
        assert(more.len() == 2);
        assert(rest.contains('-'));
        assert(more[0] == rest.take(2));
        let last = rest.skip(3);
        let end = split_of(last, '-');
        assert(parts[2] == more[1]);
        assert(more[1] == end[0]);
        lemma_first_part(last, '-');
        lemma_day(parts[2]);
        assert(more.len() == 1 + end.len());
        if last.contains('-') {
            lemma_first_part(last.skip(end[0].len() as int + 1), '-');
        }
        assert(last == parts[2]);
        assert(value[8] == last[0] && value[9] == last[1]);
        assert(value[7] == rest[2]);
    }
}

proof fn lemma_parts_from_dashed(value: Seq<char>)
    requires
        is_dashed_date(value),
    ensures
        is_patch_value(value),
{
    let year = value.take(4);
    let month = value.subrange(5, 7);
    assert forall|i: int| 0 <= i < 4 implies year[i] != '-' by {
        assert(year[0] == value[0] && year[1] == value[1] && year[2] == value[2] && year[3]
            == value[3]);
    }
    lemma_year(year);
    assert(month[0] == value[5] && month[1] == value[6]);
    assert forall|i: int| 0 <= i < 2 implies month[i] != '-' by {}
    lemma_month(month);
    let rest = value.skip(5);
    assert(value == year + seq!['-'] + rest);
    law_parts(year, '-', rest);
    if value.len() == 7 {
        assert(rest == month);
        law_parts(month, '-', rest);
    } else {
        let day = value.skip(8);
        assert(day[0] == value[8] && day[1] == value[9]);
        assert forall|i: int| 0 <= i < 2 implies day[i] != '-' by {}
        assert(rest == month + seq!['-'] + day);
        law_parts(month, '-', day);
        law_parts(day, '-', day);
        lemma_day(day);
        assert(split_of(value, '-') == seq![year, month, day]);
    }
}

/// A level is allowed if and only if it is one of four words, or a date with a dash
/// between year and month and between month and day.
pub proof fn law_allowed_levels(value: Seq<char>)
    ensures
        is_patch_value(value) <==> (value == "today"@ || value == "no"@ || value == "harvested"@
            || value == "system_property"@ || is_dashed_date(value)),
{
    if is_patch_value(value) && !crate::patch::is_patch_word(value) {
        lemma_dashed_from_parts(value);
    }
    if is_dashed_date(value) {
        lemma_parts_from_dashed(value);
    }
}

/// The characters without the dashes among them.
pub open spec fn without_dashes(s: Seq<char>) -> Seq<char>
    decreases s.len(),
{
    if s.len() == 0 {
        s
    } else if s.last() == '-' {
        without_dashes(s.drop_last())
    } else {
        without_dashes(s.drop_last()).push(s.last())
    }
}

/// Every character is a figure.
pub open spec fn is_figures(s: Seq<char>) -> bool {
    forall|i: int| 0 <= i < s.len() ==> is_figure(#[trigger] s[i])
}

proof fn lemma_without_dashes(a: Seq<char>, b: Seq<char>)
    ensures
        without_dashes(a + b) == without_dashes(a) + without_dashes(b),
    decreases b.len(),
{
    let s = a + b;
    if b.len() > 0 {
        lemma_without_dashes(a, b.drop_last());
        assert(s.drop_last() == a + b.drop_last());
        assert(s.last() == b.last());
        assert(without_dashes(s) == without_dashes(a) + without_dashes(b));
    } else {
        assert(s == a);
        assert(without_dashes(a) + without_dashes(b) == without_dashes(a));
    }
}

proof fn lemma_figures_stay(s: Seq<char>)
    requires
        is_figures(s),
    ensures
        without_dashes(s) == s,
    decreases s.len(),
{
    if s.len() > 0 {
        assert(is_figure(s[s.len() - 1]));
        let before = s.drop_last();
        assert forall|i: int| 0 <= i < before.len() implies is_figure(#[trigger] before[i]) by {
            assert(before[i] == s[i]);
        }
        lemma_figures_stay(before);
        assert(before.push(s.last()) == s);
    }
}

proof fn lemma_figures(s: Seq<char>)
    ensures
        is_figures(s) <==> all_digits(s),
{
    if is_figures(s) {
        assert forall|i: int| 0 <= i < s.len() implies is_digit(#[trigger] s[i]) by {
            assert(is_figure(s[i]));
        }
    }
    if all_digits(s) {
        assert forall|i: int| 0 <= i < s.len() implies is_figure(#[trigger] s[i]) by {
            assert(is_digit(s[i]));
        }
    }
}

/// A date of eight figures, or of six, keeps its figures: the level that it stands for is
/// a dashed one that holds the same figures in the same order. It is taken if and only if
/// its month is one, and its day where it has one.
pub proof fn law_dates_keep_their_figures(value: Seq<char>)
    requires
        trimmed(value).len() == 8 || trimmed(value).len() == 6,
        is_figures(trimmed(value)),
    ensures
        normal_patch(value) is Some <==> {
            let figures = trimmed(value);
            &&& 1 <= two_digits(figures[4], figures[5]) <= 12
            &&& figures.len() == 8 ==> 1 <= two_digits(figures[6], figures[7]) <= 31
        },
        normal_patch(value) matches Some(level) ==> {
            &&& without_dashes(level) == trimmed(value)
            &&& is_dashed_date(level)
            &&& trimmed(value).len() == 8 ==> level.len() == 10
            &&& trimmed(value).len() == 6 ==> level.len() == 7
        },
{
    let v = trimmed(value);
    lemma_figures(v);
    reveal_strlit("prop");
    reveal_strlit("-");
    reveal_strlit("today");
    reveal_strlit("no");
    reveal_strlit("harvested");
    reveal_strlit("system_property");
    assert("-"@ == seq!['-']);
    assert(is_figure(v[0]) && is_figure(v[1]) && is_figure(v[2]) && is_figure(v[3]));
    assert(is_figure(v[4]) && is_figure(v[5]));
    assert(v != "prop"@);
    law_allowed_levels(v);
    assert(!is_patch_value(v)) by {
        assert(v != "today"@ && v != "no"@ && v != "harvested"@ && v != "system_property"@);
    }
    let year = v.take(4);
    let month = v.subrange(4, 6);
    assert(v.len() == 8 ==> is_figure(v[6]) && is_figure(v[7]));
    if v.len() == 8 {
        let day = v.subrange(6, 8);
        let level = year + "-"@ + month + "-"@ + day;
        assert(level[4] == '-' && level[7] == '-');
        assert(level[5] == v[4] && level[6] == v[5] && level[8] == v[6] && level[9] == v[7]);
        assert(level[0] == v[0] && level[1] == v[1] && level[2] == v[2] && level[3] == v[3]);
        law_allowed_levels(level);
        lemma_dashes_off(year, month, day);
        assert(year + month + day == v);
        assert(is_dashed_date(level) || !is_patch_value(level));
    } else {
        let level = year + "-"@ + month;
        assert(level[4] == '-' && level[5] == v[4] && level[6] == v[5]);
        assert(level[0] == v[0] && level[1] == v[1] && level[2] == v[2] && level[3] == v[3]);
        law_allowed_levels(level);
        lemma_dashes_off(year, month, Seq::empty());
        assert(year + seq!['-'] + month + seq!['-'] + Seq::<char>::empty() == level.push('-'));
        assert(level.push('-').drop_last() == level);
        assert(year + month + Seq::<char>::empty() == v);
    }
}

proof fn lemma_dashes_off(a: Seq<char>, b: Seq<char>, c: Seq<char>)
    requires
        is_figures(a),
        is_figures(b),
        is_figures(c),
    ensures
        without_dashes(a + seq!['-'] + b + seq!['-'] + c) == a + b + c,
{
    let dash = seq!['-'];
    assert(dash.drop_last() == Seq::<char>::empty());
    assert(without_dashes(Seq::<char>::empty()) == Seq::<char>::empty());
    assert(without_dashes(dash) == Seq::<char>::empty());
    lemma_without_dashes(a + dash + b + dash, c);
    lemma_without_dashes(a + dash + b, dash);
    lemma_without_dashes(a + dash, b);
    lemma_without_dashes(a, dash);
    lemma_figures_stay(a);
    lemma_figures_stay(b);
    lemma_figures_stay(c);
    assert(without_dashes(a + dash + b + dash + c) == a + b + c);
}

/// A setting that is neither a date of figures alone nor the legacy word is taken as it
/// is, without the white space around it, if it is allowed, and else refused with what
/// was left of it.
pub proof fn law_other_settings(value: Seq<char>)
    requires
        !(is_figures(trimmed(value)) && (trimmed(value).len() == 8 || trimmed(value).len() == 6)),
    ensures
        trimmed(value) == "prop"@ ==> normal_patch(value) == Some("system_property"@),
        trimmed(value) != "prop"@ && is_patch_value(trimmed(value)) ==> normal_patch(value) == Some(
            trimmed(value),
        ),
        trimmed(value) != "prop"@ && !is_patch_value(trimmed(value)) ==> normal_patch(
            value,
        ) is None,
{
    lemma_figures(trimmed(value));
    law_allowed_levels("system_property"@);
}

/// A setting is answered with its level, or refused in the words that it came in, without
/// the white space around them.
pub proof fn law_settings_are_answered(value: Seq<char>)
    ensures
        match normal_patch(value) {
            Some(level) => normal_patch_or(value) == Ok::<Seq<char>, Refusal<Seq<char>>>(level),
            None => normal_patch_or(value) == Err::<Seq<char>, Refusal<Seq<char>>>(
                Refusal::InvalidPatchValue { value: trimmed(value) },
            ),
        },
{
}

/// The first line that begins with the key gives the value; the lines before and behind
/// it do not matter.
pub proof fn law_first_line_with_the_key(
    before: Seq<Seq<char>>,
    key: Seq<char>,
    value: Seq<char>,
    behind: Seq<Seq<char>>,
)
    requires
        forall|i: int| 0 <= i < before.len() ==> !key.is_prefix_of(#[trigger] before[i]),
    ensures
        line_value(before + seq![key + value] + behind, key) == trimmed(value),
        line_value(before, key) == Seq::<char>::empty(),
    decreases before.len(),
{
    let all = before + seq![key + value] + behind;
    if before.len() > 0 {
        let rest = before.drop_first();
        assert(!key.is_prefix_of(before[0]));
        assert forall|i: int| 0 <= i < rest.len() implies !key.is_prefix_of(
            #[trigger] rest[i],
        ) by {
            assert(rest[i] == before[i + 1]);
        }
        law_first_line_with_the_key(rest, key, value, behind);
        assert(all[0] == before[0]);
        assert(all.drop_first() == rest + seq![key + value] + behind);
    } else {
        assert(all[0] == key + value);
        law_prefix(key, value, all[0]);
    }
}

/// The `all=` line of a legacy file goes before the others, for each of the three levels;
/// without one, or with an empty one, each level has a line of its own.
pub proof fn law_legacy_lines(content: Seq<char>)
    ensures
        ({
            let lines = lines_of(content);
            let all = line_value(lines, "all="@);
            let (system, boot, vendor) = legacy_dates(content);
            &&& all.len() > 0 ==> system == all && boot == all && vendor == all
            &&& all.len() == 0 ==> {
                &&& system == line_value(lines, "system="@)
                &&& boot == line_value(lines, "boot="@)
                &&& vendor == line_value(lines, "vendor="@)
            }
        }),
{
}

} // verus!
