//! Text as sequences of characters: trimming, line splitting, joining, numbers.
use vstd::prelude::*;

verus! {

/// The contents of a list of strings.
pub open spec fn texts(list: Seq<String>) -> Seq<Seq<char>> {
    list.map_values(|s: String| s@)
}

/// The Unicode `White_Space` characters.
pub open spec fn is_white(c: char) -> bool {
    let n = c as u32;
    ||| 0x9 <= n <= 0xd
    ||| n == 0x20
    ||| n == 0x85
    ||| n == 0xa0
    ||| n == 0x1680
    ||| 0x2000 <= n <= 0x200a
    ||| n == 0x2028
    ||| n == 0x2029
    ||| n == 0x202f
    ||| n == 0x205f
    ||| n == 0x3000
}

/// Whether `c` is a Unicode `White_Space` character.
pub fn white(c: char) -> (r: bool)
    ensures
        r == is_white(c),
{
    let n: u32 = c as u32;
    (0x9 <= n && n <= 0xd) || n == 0x20 || n == 0x85 || n == 0xa0 || n == 0x1680 || (0x2000 <= n
        && n <= 0x200a) || n == 0x2028 || n == 0x2029 || n == 0x202f || n == 0x205f || n == 0x3000
}

/// `0` to `9`.
pub open spec fn is_digit(c: char) -> bool {
    '0' <= c <= '9'
}

/// `0` to `9`, `a` to `z` or `A` to `Z`.
pub open spec fn is_alphanumeric(c: char) -> bool {
    is_digit(c) || 'a' <= c <= 'z' || 'A' <= c <= 'Z'
}

/// Whether `c` is an ASCII digit.
pub fn digit(c: char) -> (r: bool)
    ensures
        r == is_digit(c),
{
    '0' <= c && c <= '9'
}

/// Whether `c` is an ASCII letter or digit.
pub fn alphanumeric(c: char) -> (r: bool)
    ensures
        r == is_alphanumeric(c),
{
    digit(c) || ('a' <= c && c <= 'z') || ('A' <= c && c <= 'Z')
}

/// The characters of `s`.
pub fn chars_of(s: &str) -> (chars: Vec<char>)
    ensures
        chars@ == s@,
{
    let mut chars: Vec<char> = Vec::new();
    for c in it: s.chars()
        invariant
            it.seq() == s@,
            chars@ == s@.take(it.index()),
    {
        chars.push(c);
        assert(s@.take(it.index() + 1) == s@.take(it.index()).push(c));
    }
    assert(s@.take(s@.len() as int) == s@);
    chars
}

/// Whether two strings hold the same characters.
pub fn same(a: &str, b: &str) -> (r: bool)
    ensures
        r == (a@ == b@),
{
    let a: String = a.to_owned();
    let b: String = b.to_owned();
    a == b
}

/// `s` without its leading white space.
pub open spec fn trim_start(s: Seq<char>) -> Seq<char>
    decreases s.len(),
{
    if s.len() > 0 && is_white(s.first()) {
        trim_start(s.drop_first())
    } else {
        s
    }
}

/// `s` without its trailing white space.
pub open spec fn trim_end_white(s: Seq<char>) -> Seq<char>
    decreases s.len(),
{
    if s.len() > 0 && is_white(s.last()) {
        trim_end_white(s.drop_last())
    } else {
        s
    }
}

/// `s` without leading and trailing white space.
pub open spec fn trimmed(s: Seq<char>) -> Seq<char> {
    trim_end_white(trim_start(s))
}

/// `s` without leading and trailing white space.
pub fn trim(s: &str) -> (r: &str)
    ensures
        r@ == trimmed(s@),
{
    let chars: Vec<char> = chars_of(s);
    let mut from: usize = 0;
    assert(s@.skip(0) == s@);
    while from < chars.len() && white(chars[from])
        invariant
            from <= chars.len(),
            chars@ == s@,
            trim_start(s@) == trim_start(s@.skip(from as int)),
        decreases chars.len() - from,
    {
        assert(s@.skip(from as int).drop_first() == s@.skip(from + 1));
        from += 1;
    }
    let mut to: usize = chars.len();
    assert(s@.subrange(from as int, to as int) == s@.skip(from as int));
    while from < to && white(chars[to - 1])
        invariant
            from <= to <= chars.len(),
            chars@ == s@,
            trimmed(s@) == trim_end_white(s@.subrange(from as int, to as int)),
        decreases to - from,
    {
        assert(s@.subrange(from as int, to as int).drop_last() == s@.subrange(
            from as int,
            to - 1,
        ));
        to -= 1;
    }
    s.substring_char(from, to)
}

/// Neither end is white space.
pub open spec fn is_tight(s: Seq<char>) -> bool {
    s.len() > 0 ==> !is_white(s.first()) && !is_white(s.last())
}

proof fn lemma_trim_start(s: Seq<char>)
    ensures
        trim_start(s).len() > 0 ==> !is_white(trim_start(s).first()),
        trim_start(s).len() > 0 ==> s.len() > 0 && trim_start(s).last() == s.last(),
        forall|c: char| #[trigger] trim_start(s).contains(c) ==> s.contains(c),
    decreases s.len(),
{
    if s.len() > 0 && is_white(s.first()) {
        let rest = s.drop_first();
        lemma_trim_start(rest);
        assert forall|c: char| #[trigger] trim_start(s).contains(c) implies s.contains(c) by {
            let k = choose|k: int| 0 <= k < rest.len() && rest[k] == c;
            assert(s[k + 1] == c);
        }
    }
}

proof fn lemma_trim_end(s: Seq<char>)
    ensures
        trim_end_white(s).len() > 0 ==> !is_white(trim_end_white(s).last()),
        trim_end_white(s).len() > 0 ==> s.len() > 0 && trim_end_white(s).first() == s.first(),
        forall|c: char| #[trigger] trim_end_white(s).contains(c) ==> s.contains(c),
    decreases s.len(),
{
    if s.len() > 0 && is_white(s.last()) {
        let rest = s.drop_last();
        lemma_trim_end(rest);
        assert forall|c: char| #[trigger] trim_end_white(s).contains(c) implies s.contains(c) by {
            let k = choose|k: int| 0 <= k < rest.len() && rest[k] == c;
            assert(s[k] == c);
        }
    }
}

/// Trimming takes the white space off both ends and adds no character.
pub proof fn lemma_trimmed(s: Seq<char>)
    ensures
        is_tight(trimmed(s)),
        is_tight(s) ==> trimmed(s) == s,
        trimmed(trimmed(s)) == trimmed(s),
        forall|c: char| #[trigger] trimmed(s).contains(c) ==> s.contains(c),
{
    lemma_trim_start(s);
    lemma_trim_end(trim_start(s));
    let inner = trimmed(s);
    lemma_trim_start(inner);
    lemma_trim_end(trim_start(inner));
}

proof fn lemma_trim_start_behind(s: Seq<char>, c: char)
    requires
        is_white(c),
    ensures
        trim_end_white(trim_start(s.push(c))) == trim_end_white(trim_start(s)),
    decreases s.len(),
{
    let longer = s.push(c);
    if s.len() > 0 && is_white(s.first()) {
        assert(longer.drop_first() == s.drop_first().push(c));
        lemma_trim_start_behind(s.drop_first(), c);
    } else if s.len() > 0 {
        assert(longer.first() == s.first());
        assert(longer.drop_last() == s);
    } else {
        assert(longer.drop_first() == s);
    }
}

/// A carriage return at the end is white space.
pub proof fn lemma_trimmed_return(s: Seq<char>)
    ensures
        trimmed(without_return(s)) == trimmed(s),
{
    if s.len() > 0 && s.last() == '\r' {
        lemma_trim_start_behind(s.drop_last(), '\r');
        assert(s.drop_last().push('\r') == s);
    }
}

/// `s` without its trailing `first`s and `second`s.
pub open spec fn trim_end_marks(s: Seq<char>, first: char, second: char) -> Seq<char>
    decreases s.len(),
{
    if s.len() > 0 && (s.last() == first || s.last() == second) {
        trim_end_marks(s.drop_last(), first, second)
    } else {
        s
    }
}

/// `s` without its trailing `first`s and `second`s.
pub fn trim_end<'a>(s: &'a str, first: char, second: char) -> (r: &'a str)
    ensures
        r@ == trim_end_marks(s@, first, second),
{
    let chars: Vec<char> = chars_of(s);
    let mut to: usize = chars.len();
    assert(s@.take(to as int) == s@);
    while 0 < to && (chars[to - 1] == first || chars[to - 1] == second)
        invariant
            to <= chars.len(),
            chars@ == s@,
            trim_end_marks(s@, first, second) == trim_end_marks(s@.take(to as int), first, second),
        decreases to,
    {
        assert(s@.take(to as int).drop_last() == s@.take(to - 1));
        to -= 1;
    }
    assert(s@.take(to as int) == s@.subrange(0, to as int));
    s.substring_char(0, to)
}

/// A line without the carriage return that stood before its line feed.
pub open spec fn without_return(line: Seq<char>) -> Seq<char> {
    if line.len() > 0 && line.last() == '\r' {
        line.drop_last()
    } else {
        line
    }
}

/// The lines of `s`: each ends at a line feed, a carriage return before the line
/// feed belongs to the line ending, and the last line ending is optional.
pub open spec fn lines_of(s: Seq<char>) -> Seq<Seq<char>>
    decreases s.len(),
{
    if s.len() == 0 {
        seq![]
    } else if s.contains('\n') {
        let end = s.index_of_first('\n')->0;
        if 0 <= end < s.len() {
            seq![without_return(s.take(end))] + lines_of(s.skip(end + 1))
        } else {
            seq![]
        }
    } else {
        seq![s]
    }
}

proof fn lemma_first_mark(s: Seq<char>, mark: char, end: int)
    requires
        0 <= end < s.len(),
        s[end] == mark,
        forall|i: int| 0 <= i < end ==> s[i] != mark,
    ensures
        s.contains(mark),
        s.index_of_first(mark) == Some(end),
{
    broadcast use vstd::seq_lib::group_seq_properties;

    s.index_of_first_ensures(mark);
}

/// The lines of `s`.
pub fn lines(s: &str) -> (out: Vec<String>)
    ensures
        texts(out@) == lines_of(s@),
{
    let chars: Vec<char> = chars_of(s);
    let mut out: Vec<String> = Vec::new();
    let mut start: usize = 0;
    let mut i: usize = 0;
    assert(s@.skip(0) == s@);
    assert(texts(out@) + lines_of(s@) == lines_of(s@));
    while i < chars.len()
        invariant
            start <= i <= chars.len(),
            chars@ == s@,
            forall|k: int| start <= k < i ==> s@[k] != '\n',
            texts(out@) + lines_of(s@.skip(start as int)) == lines_of(s@),
        decreases chars.len() - i,
    {
        if chars[i] == '\n' {
            let ghost rest = s@.skip(start as int);
            let ghost before = texts(out@);
            proof {
                lemma_first_mark(rest, '\n', i - start);
                assert(rest.take(i - start) == s@.subrange(start as int, i as int));
                assert(rest.skip(i - start + 1) == s@.skip(i + 1));
            }
            let end: usize = if start < i && chars[i - 1] == '\r' {
                i - 1
            } else {
                i
            };
            let line: &str = s.substring_char(start, end);
            assert(line@ == without_return(rest.take(i - start)));
            out.push(line.to_owned());
            assert(texts(out@) == before.push(line@));
            start = i + 1;
            assert(texts(out@) + lines_of(s@.skip(start as int)) == before + lines_of(rest));
        }
        i += 1;
    }
    if start < chars.len() {
        let ghost rest = s@.skip(start as int);
        let ghost before = texts(out@);
        let line: &str = s.substring_char(start, chars.len());
        assert(line@ == rest);
        assert(!rest.contains('\n'));
        out.push(line.to_owned());
        assert(texts(out@) == before.push(line@));
        assert(texts(out@) == before + lines_of(rest));
    } else {
        assert(texts(out@) == texts(out@) + lines_of(s@.skip(start as int)));
    }
    out
}

/// A line that is put behind whole lines is the last one.
pub proof fn lemma_line_behind(s: Seq<char>, line: Seq<char>)
    requires
        s.len() == 0 || s.last() == '\n',
        !line.contains('\n'),
    ensures
        lines_of(s + line + seq!['\n']) == lines_of(s).push(without_return(line)),
    decreases s.len(),
{
    let longer = s + line + seq!['\n'];
    if s.len() == 0 {
        assert forall|i: int| 0 <= i < line.len() implies longer[i] != '\n' by {
            assert(longer[i] == line[i]);
            assert(line.contains(line[i]));
        }
        assert(longer[line.len() as int] == '\n');
        lemma_first_mark(longer, '\n', line.len() as int);
        assert(longer.take(line.len() as int) == line);
        assert(longer.skip(line.len() as int + 1) == Seq::<char>::empty());
        assert(lines_of(longer.skip(line.len() as int + 1)) == Seq::<Seq<char>>::empty());
        assert(lines_of(longer) == lines_of(s).push(without_return(line)));
    } else {
        assert(s.contains('\n')) by {
            assert(s[s.len() - 1] == '\n');
        }
        s.index_of_first_ensures('\n');
        let end = s.index_of_first('\n')->0;
        assert forall|i: int| 0 <= i < end implies longer[i] != '\n' by {
            assert(longer[i] == s[i]);
        }
        lemma_first_mark(longer, '\n', end);
        let rest = s.skip(end + 1);
        assert(longer.skip(end + 1) == rest + line + seq!['\n']);
        assert(longer.take(end) == s.take(end));
        lemma_line_behind(rest, line);
        assert(lines_of(longer) == lines_of(s).push(without_return(line)));
    }
}

/// The last line is the same with and without a line feed, but for white space.
pub proof fn lemma_last_line_feed(s: Seq<char>)
    requires
        s.len() > 0,
        s.last() != '\n',
    ensures
        lines_of(s + seq!['\n']).len() == lines_of(s).len(),
        forall|i: int|
            0 <= i < lines_of(s).len() ==> trimmed(#[trigger] lines_of(s + seq!['\n'])[i])
                == trimmed(lines_of(s)[i]),
    decreases s.len(),
{
    let longer = s + seq!['\n'];
    if s.contains('\n') {
        s.index_of_first_ensures('\n');
        let end = s.index_of_first('\n')->0;
        assert forall|i: int| 0 <= i < end implies longer[i] != '\n' by {
            assert(longer[i] == s[i]);
        }
        lemma_first_mark(longer, '\n', end);
        let rest = s.skip(end + 1);
        assert(rest.last() == s.last());
        assert(longer.skip(end + 1) == rest + seq!['\n']);
        assert(longer.take(end) == s.take(end));
        lemma_last_line_feed(rest);
        assert forall|i: int| 0 <= i < lines_of(s).len() implies trimmed(
            #[trigger] lines_of(longer)[i],
        ) == trimmed(lines_of(s)[i]) by {
            if i > 0 {
                assert(lines_of(longer)[i] == lines_of(rest + seq!['\n'])[i - 1]);
                assert(lines_of(s)[i] == lines_of(rest)[i - 1]);
            }
        }
    } else {
        assert forall|i: int| 0 <= i < s.len() implies longer[i] != '\n' by {
            assert(longer[i] == s[i]);
            assert(s.contains(s[i]));
        }
        lemma_first_mark(longer, '\n', s.len() as int);
        assert(longer.take(s.len() as int) == s);
        assert(longer.skip(s.len() as int + 1) == Seq::<char>::empty());
        assert(lines_of(longer.skip(s.len() as int + 1)) == Seq::<Seq<char>>::empty());
        assert(lines_of(longer) == seq![without_return(s)]);
        lemma_trimmed_return(s);
    }
}

/// No line holds a line feed.
pub proof fn lemma_lines_without_feeds(s: Seq<char>)
    ensures
        forall|i: int| 0 <= i < lines_of(s).len() ==> !(#[trigger] lines_of(s)[i]).contains('\n'),
    decreases s.len(),
{
    if s.len() > 0 && s.contains('\n') {
        s.index_of_first_ensures('\n');
        let end = s.index_of_first('\n')->0;
        let rest = s.skip(end + 1);
        lemma_lines_without_feeds(rest);
        assert forall|i: int| 0 <= i < lines_of(s).len() implies !(
        #[trigger] lines_of(s)[i]).contains('\n') by {
            if i > 0 {
                assert(lines_of(s)[i] == lines_of(rest)[i - 1]);
            } else {
                let line = without_return(s.take(end));
                assert forall|k: int| 0 <= k < line.len() implies line[k] != '\n' by {
                    assert(line[k] == s[k]);
                }
            }
        }
    }
}

/// The parts of `s` between the `mark`s.
pub open spec fn split_of(s: Seq<char>, mark: char) -> Seq<Seq<char>>
    decreases s.len(),
{
    if s.contains(mark) {
        let end = s.index_of_first(mark)->0;
        if 0 <= end < s.len() {
            seq![s.take(end)] + split_of(s.skip(end + 1), mark)
        } else {
            seq![]
        }
    } else {
        seq![s]
    }
}

/// The parts of `s` between the `mark`s.
pub fn split(s: &str, mark: char) -> (out: Vec<String>)
    ensures
        texts(out@) == split_of(s@, mark),
{
    let chars: Vec<char> = chars_of(s);
    let mut out: Vec<String> = Vec::new();
    let mut start: usize = 0;
    let mut i: usize = 0;
    assert(s@.skip(0) == s@);
    assert(texts(out@) + split_of(s@, mark) == split_of(s@, mark));
    while i < chars.len()
        invariant
            start <= i <= chars.len(),
            chars@ == s@,
            forall|k: int| start <= k < i ==> s@[k] != mark,
            texts(out@) + split_of(s@.skip(start as int), mark) == split_of(s@, mark),
        decreases chars.len() - i,
    {
        if chars[i] == mark {
            let ghost rest = s@.skip(start as int);
            let ghost before = texts(out@);
            proof {
                lemma_first_mark(rest, mark, i - start);
                assert(rest.take(i - start) == s@.subrange(start as int, i as int));
                assert(rest.skip(i - start + 1) == s@.skip(i + 1));
            }
            let part: &str = s.substring_char(start, i);
            out.push(part.to_owned());
            assert(texts(out@) == before.push(part@));
            start = i + 1;
            assert(texts(out@) + split_of(s@.skip(start as int), mark) == before + split_of(
                rest,
                mark,
            ));
        }
        i += 1;
    }
    let ghost rest = s@.skip(start as int);
    let ghost before = texts(out@);
    let part: &str = s.substring_char(start, chars.len());
    assert(part@ == rest);
    assert(!rest.contains(mark));
    out.push(part.to_owned());
    assert(texts(out@) == before.push(part@));
    assert(texts(out@) == before + split_of(rest, mark));
    out
}

/// The `parts` one after the other, with `mark` between them.
pub open spec fn joined(parts: Seq<Seq<char>>, mark: Seq<char>) -> Seq<char>
    decreases parts.len(),
{
    if parts.len() == 0 {
        seq![]
    } else if parts.len() == 1 {
        parts[0]
    } else {
        joined(parts.drop_last(), mark) + mark + parts.last()
    }
}

/// The `parts` one after the other, with `mark` between them.
pub fn join(parts: &Vec<String>, mark: &str) -> (r: String)
    ensures
        r@ == joined(texts(parts@), mark@),
{
    let mut out: String = String::new();
    let mut i: usize = 0;
    let ghost all = texts(parts@);
    while i < parts.len()
        invariant
            i <= parts.len(),
            all == texts(parts@),
            out@ == joined(all.take(i as int), mark@),
        decreases parts.len() - i,
    {
        if i > 0 {
            out.append(mark);
        }
        out.append(parts[i].as_str());
        assert(all.take(i + 1).drop_last() == all.take(i as int));
        assert(all.take(i + 1).last() == parts[i as int]@);
        i += 1;
    }
    assert(all.take(i as int) == all);
    out
}

/// Whether `s` begins with `prefix`.
pub fn starts_with(s: &str, prefix: &str) -> (r: bool)
    ensures
        r == prefix@.is_prefix_of(s@),
{
    let n: usize = prefix.unicode_len();
    let m: usize = s.unicode_len();
    if n > m {
        return false;
    }
    let head: &str = s.substring_char(0, n);
    same(head, prefix)
}

/// Whether `s` ends with `suffix`.
pub fn ends_with(s: &str, suffix: &str) -> (r: bool)
    ensures
        r == suffix@.is_suffix_of(s@),
{
    let n: usize = suffix.unicode_len();
    let m: usize = s.unicode_len();
    if n > m {
        return false;
    }
    let tail: &str = s.substring_char(m - n, m);
    same(tail, suffix)
}

/// What follows `prefix` in `s`, where `s` begins with it.
pub open spec fn stripped_prefix(s: Seq<char>, prefix: Seq<char>) -> Option<Seq<char>> {
    if prefix.is_prefix_of(s) {
        Some(s.skip(prefix.len() as int))
    } else {
        None
    }
}

/// What follows `prefix` in `s`, where `s` begins with it.
pub fn strip_prefix<'a>(s: &'a str, prefix: &str) -> (r: Option<&'a str>)
    ensures
        match r {
            Some(rest) => stripped_prefix(s@, prefix@) == Some(rest@),
            None => stripped_prefix(s@, prefix@) is None,
        },
{
    if !starts_with(s, prefix) {
        return None;
    }
    let n: usize = prefix.unicode_len();
    let m: usize = s.unicode_len();
    assert(s@.subrange(n as int, m as int) == s@.skip(n as int));
    Some(s.substring_char(n, m))
}

/// The value of a row of decimal digits.
pub open spec fn digits_value(s: Seq<char>) -> nat
    decreases s.len(),
{
    if s.len() == 0 {
        0
    } else {
        10 * digits_value(s.drop_last()) + (s.last() as u32 - '0' as u32) as nat
    }
}

/// At least one character, each of them a decimal digit.
pub open spec fn is_number(s: Seq<char>) -> bool {
    s.len() > 0 && all_digits(s)
}

/// Every character is a decimal digit.
pub open spec fn all_digits(s: Seq<char>) -> bool {
    forall|i: int| 0 <= i < s.len() ==> is_digit(#[trigger] s[i])
}

/// What `text` reads as an unsigned number of at most `max`: digits, after at
/// most one plus sign.
pub open spec fn unsigned_value(text: Seq<char>, max: nat) -> Option<nat> {
    let digits = if text.len() > 0 && text[0] == '+' {
        text.skip(1)
    } else {
        text
    };
    if is_number(digits) && digits_value(digits) <= max {
        Some(digits_value(digits))
    } else {
        None
    }
}

/// What `text` reads as an `i32`: digits, after at most one sign.
pub open spec fn signed_value(text: Seq<char>) -> Option<int> {
    if text.len() > 0 && text[0] == '-' {
        let digits = text.skip(1);
        if is_number(digits) && digits_value(digits) <= 0x8000_0000 {
            Some(-(digits_value(digits) as int))
        } else {
            None
        }
    } else {
        match unsigned_value(text, i32::MAX as nat) {
            Some(n) => Some(n as int),
            None => None,
        }
    }
}

proof fn lemma_more_digits(s: Seq<char>, n: int)
    requires
        0 <= n <= s.len(),
        all_digits(s),
    ensures
        digits_value(s.take(n)) <= digits_value(s),
    decreases s.len() - n,
{
    if n < s.len() {
        lemma_more_digits(s, n + 1);
        assert(s.take(n + 1).drop_last() == s.take(n));
        assert(is_digit(s[n]));
    } else {
        assert(s.take(n) == s);
    }
}

/// The value of the digits of `chars` from `from` on, where it is at most `max`.
fn number_from(chars: &Vec<char>, from: usize, max: u32) -> (r: Option<u32>)
    requires
        from <= chars.len(),
    ensures
        match r {
            Some(n) => is_number(chars@.skip(from as int)) && digits_value(chars@.skip(from as int))
                == n && n <= max,
            None => !is_number(chars@.skip(from as int)) || digits_value(chars@.skip(from as int))
                > max,
        },
{
    let ghost digits = chars@.skip(from as int);
    if from == chars.len() {
        return None;
    }
    let mut value: u64 = 0;
    let mut i: usize = from;
    while i < chars.len()
        invariant
            from <= i <= chars.len(),
            digits == chars@.skip(from as int),
            all_digits(digits.take(i - from)),
            value == digits_value(digits.take(i - from)),
            value <= max,
        decreases chars.len() - i,
    {
        let c: char = chars[i];
        assert(c == digits[i - from]);
        if !digit(c) {
            return None;
        }
        value = value * 10 + (c as u64 - '0' as u64);
        assert(digits.take(i - from + 1).drop_last() == digits.take(i - from));
        assert(all_digits(digits.take(i - from + 1)));
        if value > max as u64 {
            proof {
                if all_digits(digits) {
                    lemma_more_digits(digits, i - from + 1);
                }
            }
            return None;
        }
        i += 1;
    }
    assert(digits.take(i - from) == digits);
    Some(value as u32)
}

/// Reads an unsigned number of at most `max`.
pub fn parse_unsigned(s: &str, max: u32) -> (r: Option<u32>)
    ensures
        match r {
            Some(n) => unsigned_value(s@, max as nat) == Some(n as nat),
            None => unsigned_value(s@, max as nat) is None,
        },
{
    let chars: Vec<char> = chars_of(s);
    assert(s@.skip(0) == s@);
    if chars.len() > 0 && chars[0] == '+' {
        number_from(&chars, 1, max)
    } else {
        number_from(&chars, 0, max)
    }
}

/// Reads an `i32`.
pub fn parse_signed(s: &str) -> (r: Option<i32>)
    ensures
        match r {
            Some(n) => signed_value(s@) == Some(n as int),
            None => signed_value(s@) is None,
        },
{
    let chars: Vec<char> = chars_of(s);
    if chars.len() > 0 && chars[0] == '-' {
        match number_from(&chars, 1, 0x8000_0000) {
            Some(n) => Some((-(n as i64)) as i32),
            None => None,
        }
    } else {
        match parse_unsigned(s, i32::MAX as u32) {
            Some(n) => Some(n as i32),
            None => None,
        }
    }
}

/// The decimal digit for a number below ten.
pub open spec fn digit_of(n: nat) -> char {
    ('0' as u32 + n as u32) as char
}

/// A number in decimal digits.
pub open spec fn decimal(n: nat) -> Seq<char>
    decreases n,
{
    if n < 10 {
        seq![digit_of(n)]
    } else {
        decimal(n / 10).push(digit_of(n % 10))
    }
}

fn digit_text(n: u64) -> (r: &'static str)
    requires
        n < 10,
    ensures
        r@ == seq![digit_of(n as nat)],
{
    proof {
        reveal_strlit("0");
        reveal_strlit("1");
        reveal_strlit("2");
        reveal_strlit("3");
        reveal_strlit("4");
        reveal_strlit("5");
        reveal_strlit("6");
        reveal_strlit("7");
        reveal_strlit("8");
        reveal_strlit("9");
    }
    if n == 0 {
        "0"
    } else if n == 1 {
        "1"
    } else if n == 2 {
        "2"
    } else if n == 3 {
        "3"
    } else if n == 4 {
        "4"
    } else if n == 5 {
        "5"
    } else if n == 6 {
        "6"
    } else if n == 7 {
        "7"
    } else if n == 8 {
        "8"
    } else {
        "9"
    }
}

/// A number in decimal digits.
pub fn number_text(n: u64) -> (r: String)
    ensures
        r@ == decimal(n as nat),
    decreases n,
{
    if n < 10 {
        digit_text(n).to_owned()
    } else {
        let mut out: String = number_text(n / 10);
        out.append(digit_text(n % 10));
        assert(out@ == decimal((n / 10) as nat).push(digit_of((n % 10) as nat)));
        out
    }
}

/// `a` and then `b`.
pub fn both(a: &str, b: &str) -> (r: String)
    ensures
        r@ == a@ + b@,
{
    let mut out: String = a.to_owned();
    out.append(b);
    out
}

/// An ASCII letter in lower case, and any other character as it is.
pub open spec fn lower_char(c: char) -> char {
    if 'A' <= c <= 'Z' {
        (c as u32 + 32) as char
    } else {
        c
    }
}

/// `s` with its ASCII letters in lower case.
pub open spec fn lowercase(s: Seq<char>) -> Seq<char> {
    Seq::new(s.len(), |i: int| lower_char(s[i]))
}

fn lower(c: char) -> (r: char)
    ensures
        r == lower_char(c),
{
    if 'A' <= c && c <= 'Z' {
        (c as u8 + 32) as char
    } else {
        c
    }
}

/// Whether `s` with its ASCII letters in lower case is `word`.
pub fn same_in_lowercase(s: &str, word: &str) -> (r: bool)
    ensures
        r == (lowercase(s@) == word@),
{
    let left: Vec<char> = chars_of(s);
    let right: Vec<char> = chars_of(word);
    let ghost lowered = lowercase(s@);
    if left.len() != right.len() {
        return false;
    }
    let mut i: usize = 0;
    while i < left.len()
        invariant
            i <= left.len(),
            left.len() == right.len(),
            left@ == s@,
            right@ == word@,
            lowered == lowercase(s@),
            forall|k: int| 0 <= k < i ==> lowered[k] == word@[k],
        decreases left.len() - i,
    {
        if lower(left[i]) != right[i] {
            assert(lowered[i as int] != word@[i as int]);
            return false;
        }
        i += 1;
    }
    assert(lowered == word@);
    true
}

/// `n` spaces.
pub open spec fn spaces(n: nat) -> Seq<char> {
    Seq::new(n, |i: int| ' ')
}

/// `n` spaces.
pub fn pad(n: usize) -> (r: String)
    ensures
        r@ == spaces(n as nat),
{
    let mut out: String = String::new();
    let mut i: usize = 0;
    while i < n
        invariant
            i <= n,
            out@ == spaces(i as nat),
        decreases n - i,
    {
        proof {
            reveal_strlit(" ");
        }
        out.append(" ");
        assert(out@ == spaces((i + 1) as nat));
        i += 1;
    }
    out
}

} // verus!
