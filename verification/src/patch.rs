//! Security patch levels: the values that are allowed, and the legacy file that
//! holds them.
use crate::error::{text_answer, EngineError, Refusal};
use crate::text::{
    all_digits, both, digits_value, is_digit, is_number, is_tight, lemma_trimmed, lines, lines_of,
    parse_unsigned, same, split, split_of, strip_prefix, stripped_prefix, texts, trim, trimmed,
    unsigned_value,
};
use vstd::prelude::*;

verus! {

/// The values that name a source of the patch level.
pub open spec fn is_patch_word(value: Seq<char>) -> bool {
    value == "today"@ || value == "no"@ || value == "harvested"@ || value == "system_property"@
}

/// Four digits, or the placeholder of a year.
pub open spec fn is_patch_year(part: Seq<char>) -> bool {
    part == "YYYY"@ || (part.len() == 4 && all_digits(part))
}

/// Two characters that read as a number from 1 to 12, or the placeholder of a month.
pub open spec fn is_patch_month(part: Seq<char>) -> bool {
    part == "MM"@ || (part.len() == 2 && match unsigned_value(part, 255) {
        Some(month) => 1 <= month <= 12,
        None => false,
    })
}

/// Two digits, from 01 to 31.
pub open spec fn is_patch_day(part: Seq<char>) -> bool {
    part.len() == 2 && all_digits(part) && 1 <= digits_value(part) <= 31
}

/// A source, or a year and a month with or without a day.
pub open spec fn is_patch_value(value: Seq<char>) -> bool {
    let parts = split_of(value, '-');
    ||| is_patch_word(value)
    ||| {
        &&& 2 <= parts.len() <= 3
        &&& is_patch_year(parts[0])
        &&& is_patch_month(parts[1])
        &&& parts.len() == 2 || parts[2] == "DD"@ || is_patch_day(parts[2])
    }
}

/// Whether every character is a decimal digit.
fn has_only_digits(s: &str) -> (r: bool)
    ensures
        r == all_digits(s@),
{
    let chars: Vec<char> = crate::text::chars_of(s);
    let mut i: usize = 0;
    while i < chars.len()
        invariant
            i <= chars.len(),
            chars@ == s@,
            forall|k: int| 0 <= k < i ==> is_digit(#[trigger] s@[k]),
        decreases chars.len() - i,
    {
        if !crate::text::digit(chars[i]) {
            assert(!is_digit(s@[i as int]));
            return false;
        }
        i += 1;
    }
    true
}

/// Whether `value` is a day of a patch level.
pub fn valid_patch_day(value: &str) -> (r: bool)
    ensures
        r == is_patch_day(value@),
{
    if value.unicode_len() != 2 || !has_only_digits(value) {
        return false;
    }
    assert(is_number(value@));
    assert(is_digit(value@[0]));
    assert(value@.drop_last().drop_last() == Seq::<char>::empty());
    assert(digits_value(value@) <= 99) by {
        assert(is_digit(value@[1]));
        reveal_with_fuel(digits_value, 3);
    }
    match parse_unsigned(value, 255) {
        Some(day) => 1 <= day && day <= 31,
        None => false,
    }
}

/// Whether `value` is a patch level that a profile may hold.
pub fn valid_patch_value(value: &str) -> (r: bool)
    ensures
        r == is_patch_value(value@),
{
    if same(value, "today") || same(value, "no") || same(value, "harvested") || same(
        value,
        "system_property",
    ) {
        return true;
    }
    let parts: Vec<String> = split(value, '-');
    let ghost seen = split_of(value@, '-');
    if parts.len() < 2 || parts.len() > 3 {
        return false;
    }
    assert(seen[0] == parts@[0]@ && seen[1] == parts@[1]@);
    let year_text: &str = parts[0].as_str();
    let year: bool = same(year_text, "YYYY") || (year_text.unicode_len() == 4 && has_only_digits(
        year_text,
    ));
    let month_text: &str = parts[1].as_str();
    let month: bool = same(month_text, "MM") || (month_text.unicode_len() == 2
        && match parse_unsigned(month_text, 255) {
        Some(month) => 1 <= month && month <= 12,
        None => false,
    });
    let day: bool = if parts.len() == 2 {
        true
    } else {
        assert(seen[2] == parts@[2]@);
        same(parts[2].as_str(), "DD") || valid_patch_day(parts[2].as_str())
    };
    year && month && day
}

/// The patch level that a setting stands for before it is checked.
pub open spec fn expanded_patch(value: Seq<char>) -> Option<Seq<char>> {
    if value == "prop"@ {
        Some("system_property"@)
    } else if is_patch_value(value) {
        Some(value)
    } else if value.len() == 8 && all_digits(value) {
        Some(value.take(4) + "-"@ + value.subrange(4, 6) + "-"@ + value.subrange(6, 8))
    } else if value.len() == 6 && all_digits(value) {
        Some(value.take(4) + "-"@ + value.subrange(4, 6))
    } else {
        None
    }
}

/// The patch level that a setting stands for, where it stands for an allowed one.
pub open spec fn normal_patch(value: Seq<char>) -> Option<Seq<char>> {
    match expanded_patch(trimmed(value)) {
        Some(level) => if is_patch_value(level) {
            Some(level)
        } else {
            None
        },
        None => None,
    }
}

/// What `normalize_patch_value` answers.
pub open spec fn normal_patch_or(value: Seq<char>) -> Result<Seq<char>, Refusal<Seq<char>>> {
    match normal_patch(value) {
        Some(level) => Ok(level),
        None => Err(Refusal::InvalidPatchValue { value: trimmed(value) }),
    }
}

/// Brings a setting into the form that a profile holds: the legacy word `prop` and
/// dates without dashes are rewritten, and what is then not allowed is refused.
pub fn normalize_patch_value(value: &str) -> (r: Result<String, EngineError>)
    ensures
        text_answer(r) == normal_patch_or(value@),
{
    let value: &str = trim(value);
    let level: String = if same(value, "prop") {
        "system_property".to_owned()
    } else if valid_patch_value(value) {
        value.to_owned()
    } else if value.unicode_len() == 8 && has_only_digits(value) {
        assert(value@.take(4) == value@.subrange(0, 4));
        let year: String = both(value.substring_char(0, 4), "-");
        let month: String = both(both(year.as_str(), value.substring_char(4, 6)).as_str(), "-");
        both(month.as_str(), value.substring_char(6, 8))
    } else if value.unicode_len() == 6 && has_only_digits(value) {
        assert(value@.take(4) == value@.subrange(0, 4));
        let year: String = both(value.substring_char(0, 4), "-");
        both(year.as_str(), value.substring_char(4, 6))
    } else {
        return Err(Refusal::InvalidPatchValue { value: value.to_owned() });
    };
    if !valid_patch_value(level.as_str()) {
        return Err(Refusal::InvalidPatchValue { value: value.to_owned() });
    }
    Ok(level)
}

/// What follows `key` in the first line that begins with it, without white space
/// around it.
pub open spec fn line_value(lines: Seq<Seq<char>>, key: Seq<char>) -> Seq<char>
    decreases lines.len(),
{
    if lines.len() == 0 {
        seq![]
    } else {
        match stripped_prefix(lines[0], key) {
            Some(rest) => trimmed(rest),
            None => line_value(lines.drop_first(), key),
        }
    }
}

fn find_line_value(content: &Vec<String>, key: &str) -> (r: String)
    ensures
        r@ == line_value(texts(content@), key@),
{
    let ghost all = texts(content@);
    let mut i: usize = 0;
    assert(all.skip(0) == all);
    while i < content.len()
        invariant
            i <= content.len(),
            all == texts(content@),
            line_value(all, key@) == line_value(all.skip(i as int), key@),
        decreases content.len() - i,
    {
        assert(all.skip(i as int)[0] == content@[i as int]@);
        match strip_prefix(content[i].as_str(), key) {
            Some(rest) => {
                return trim(rest).to_owned();
            },
            None => {},
        }
        assert(all.skip(i as int).drop_first() == all.skip(i + 1));
        i += 1;
    }
    String::new()
}

/// The system, boot and vendor levels of a legacy file: the `all=` line where it
/// says anything, else a line for each.
pub open spec fn legacy_dates(content: Seq<char>) -> (Seq<char>, Seq<char>, Seq<char>) {
    let lines = lines_of(content);
    let all = line_value(lines, "all="@);
    if all.len() > 0 {
        (all, all, all)
    } else {
        (
            line_value(lines, "system="@),
            line_value(lines, "boot="@),
            line_value(lines, "vendor="@),
        )
    }
}

/// Reads the system, boot and vendor levels of a legacy file.
pub fn parse_tricky_patch_dates(content: &str) -> (r: (String, String, String))
    ensures
        (r.0@, r.1@, r.2@) == legacy_dates(content@),
{
    let content: Vec<String> = lines(content);
    let all: String = find_line_value(&content, "all=");
    if !all.as_str().is_empty() {
        return (all.clone(), all.clone(), all);
    }
    (
        find_line_value(&content, "system="),
        find_line_value(&content, "boot="),
        find_line_value(&content, "vendor="),
    )
}

proof fn lemma_split_ends(s: Seq<char>, mark: char)
    ensures
        split_of(s, mark).len() > 0,
        split_of(s, mark)[0].is_prefix_of(s),
        split_of(s, mark).last().is_suffix_of(s),
    decreases s.len(),
{
    if s.contains(mark) {
        s.index_of_first_ensures(mark);
        let end = s.index_of_first(mark)->0;
        let rest = s.skip(end + 1);
        lemma_split_ends(rest, mark);
        let last = split_of(rest, mark).last();
        assert(split_of(s, mark).last() == last);
        assert(rest.skip(rest.len() - last.len()) == s.skip(s.len() - last.len()));
    }
}

proof fn lemma_patch_value_is_tight(value: Seq<char>)
    requires
        is_patch_value(value),
    ensures
        is_tight(value),
        value != "prop"@,
{
    reveal_strlit("today");
    reveal_strlit("no");
    reveal_strlit("harvested");
    reveal_strlit("system_property");
    reveal_strlit("prop");
    reveal_strlit("YYYY");
    reveal_strlit("MM");
    reveal_strlit("DD");
    if !is_patch_word(value) {
        lemma_split_ends(value, '-');
        let parts = split_of(value, '-');
        let year = parts[0];
        let last = parts.last();
        assert(is_digit(year[0]) || year[0] == 'Y');
        assert(value[0] == year[0]);
        assert(last.len() == 2);
        if parts.len() == 2 {
            if last != "MM"@ {
                let digits = if last[0] == '+' {
                    last.skip(1)
                } else {
                    last
                };
                assert(is_digit(digits[digits.len() - 1]));
                assert(digits[digits.len() - 1] == last[1]);
            }
        } else if last != "DD"@ {
            assert(is_digit(last[1]));
        }
        assert(value[value.len() - 1] == last[1]);
        assert(year[0] != 'p');
    }
}

/// A setting that is taken stands for a level that a profile may hold, and normalising
/// that level again changes nothing.
pub proof fn law_normalising_a_level_twice(value: Seq<char>)
    requires
        normal_patch(value) is Some,
    ensures
        is_patch_value(normal_patch(value)->0),
        normal_patch(normal_patch(value)->0) == normal_patch(value),
{
    let level = normal_patch(value)->0;
    lemma_patch_value_is_tight(level);
    lemma_trimmed(level);
}

/// Every level that a profile may hold is taken as it is.
pub proof fn law_allowed_levels_stay(value: Seq<char>)
    requires
        is_patch_value(value),
    ensures
        normal_patch(value) == Some(value),
{
    lemma_patch_value_is_tight(value);
    lemma_trimmed(value);
}

} // verus!
