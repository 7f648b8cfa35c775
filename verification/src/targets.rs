//! Lists of targets: how they are cleaned, written down and read back.
use crate::device::TextFile;
use crate::error::{texts_answer, EngineError, Refusal};
use crate::text::{
    is_tight, is_white, join, joined, lemma_line_behind, lemma_trimmed, lines, lines_of, same,
    texts, trim, trim_end, trim_end_marks, trimmed, without_return,
};
use vstd::prelude::*;

verus! {

/// The file from which TrickyStore reads the targets.
pub const TARGET_MIRROR: &'static str = "/data/adb/tricky_store/target.txt";

/// Whether `s` begins with a `#`.
pub open spec fn is_comment(s: Seq<char>) -> bool {
    s.len() > 0 && s[0] == '#'
}

fn starts_comment(s: &str) -> (r: bool)
    ensures
        r == is_comment(s@),
{
    s.unicode_len() > 0 && s.get_char(0) == '#'
}

/// Whether the list has `entry`.
pub fn has_text(list: &Vec<String>, entry: &str) -> (r: bool)
    ensures
        r == texts(list@).contains(entry@),
{
    let ghost all = texts(list@);
    let mut i: usize = 0;
    while i < list.len()
        invariant
            i <= list.len(),
            all == texts(list@),
            forall|k: int| 0 <= k < i ==> all[k] != entry@,
        decreases list.len() - i,
    {
        if same(list[i].as_str(), entry) {
            assert(all[i as int] == entry@);
            return true;
        }
        i += 1;
    }
    false
}

/// An entry without the white space around it and the marks behind it.
pub open spec fn bare_target(entry: Seq<char>) -> Seq<char> {
    trim_end_marks(trimmed(entry), '!', '?')
}

/// The bare entries, each once and in the order in which they come first, without
/// empty ones and comments.
pub open spec fn normal_targets(entries: Seq<Seq<char>>) -> Seq<Seq<char>>
    decreases entries.len(),
{
    if entries.len() == 0 {
        seq![]
    } else {
        let rest = normal_targets(entries.drop_last());
        let entry = bare_target(entries.last());
        if entry.len() == 0 || is_comment(entry) || rest.contains(entry) {
            rest
        } else {
            rest.push(entry)
        }
    }
}

/// The entries, each once and in the order in which they come first.
pub open spec fn first_occurrences(entries: Seq<Seq<char>>) -> Seq<Seq<char>>
    decreases entries.len(),
{
    if entries.len() == 0 {
        seq![]
    } else {
        let rest = first_occurrences(entries.drop_last());
        if rest.contains(entries.last()) {
            rest
        } else {
            rest.push(entries.last())
        }
    }
}

/// The entries as TEESimulator takes them.
pub fn normalize_targets(entries: &Vec<String>) -> (r: Vec<String>)
    ensures
        texts(r@) == normal_targets(texts(entries@)),
{
    let ghost all = texts(entries@);
    let mut out: Vec<String> = Vec::new();
    let mut i: usize = 0;
    assert(all.take(0) == Seq::<Seq<char>>::empty());
    assert(texts(out@) == Seq::<Seq<char>>::empty());
    while i < entries.len()
        invariant
            i <= entries.len(),
            all == texts(entries@),
            texts(out@) == normal_targets(all.take(i as int)),
        decreases entries.len() - i,
    {
        let ghost before = texts(out@);
        assert(all.take(i + 1).drop_last() == all.take(i as int));
        assert(all.take(i + 1).last() == entries@[i as int]@);
        let entry: &str = trim_end(trim(entries[i].as_str()), '!', '?');
        if !entry.is_empty() && !starts_comment(entry) && !has_text(&out, entry) {
            out.push(entry.to_owned());
            assert(texts(out@) == before.push(entry@));
        }
        i += 1;
    }
    assert(all.take(i as int) == all);
    out
}

/// The entries without the white space around them, without empty ones, and without
/// comments where `comments` is false.
pub open spec fn trimmed_entries(entries: Seq<Seq<char>>, comments: bool) -> Seq<Seq<char>>
    decreases entries.len(),
{
    if entries.len() == 0 {
        seq![]
    } else {
        let rest = trimmed_entries(entries.drop_last(), comments);
        let entry = trimmed(entries.last());
        if entry.len() == 0 || (!comments && is_comment(entry)) {
            rest
        } else {
            rest.push(entry)
        }
    }
}

/// The entries without the white space around them and without empty ones; comments
/// stay where `comments` is true.
pub fn trim_entries(entries: &Vec<String>, comments: bool) -> (r: Vec<String>)
    ensures
        texts(r@) == trimmed_entries(texts(entries@), comments),
{
    let ghost all = texts(entries@);
    let mut out: Vec<String> = Vec::new();
    let mut i: usize = 0;
    assert(all.take(0) == Seq::<Seq<char>>::empty());
    assert(texts(out@) == Seq::<Seq<char>>::empty());
    while i < entries.len()
        invariant
            i <= entries.len(),
            all == texts(entries@),
            texts(out@) == trimmed_entries(all.take(i as int), comments),
        decreases entries.len() - i,
    {
        let ghost before = texts(out@);
        assert(all.take(i + 1).drop_last() == all.take(i as int));
        assert(all.take(i + 1).last() == entries@[i as int]@);
        let entry: &str = trim(entries[i].as_str());
        if !entry.is_empty() && (comments || !starts_comment(entry)) {
            out.push(entry.to_owned());
            assert(texts(out@) == before.push(entry@));
        }
        i += 1;
    }
    assert(all.take(i as int) == all);
    out
}

/// The file that holds the entries, one in a line.
pub open spec fn list_text(entries: Seq<Seq<char>>) -> Seq<char> {
    let content = joined(entries, "\n"@);
    if content.len() == 0 {
        content
    } else {
        content + "\n"@
    }
}

/// The file that holds the entries, one in a line.
pub fn write_target_mirror(entries: &Vec<String>) -> (r: String)
    ensures
        r@ == list_text(texts(entries@)),
{
    let mut content: String = join(entries, "\n");
    if !content.as_str().is_empty() {
        content.append("\n");
    }
    content
}

/// The targets in a file, where it can be read; a missing file holds none.
pub open spec fn file_targets(file: TextFile, comments: bool) -> Result<
    Seq<Seq<char>>,
    Refusal<Seq<char>>,
> {
    match file {
        TextFile::Missing { .. } => Ok(seq![]),
        TextFile::Unreadable { words } => Err(
            Refusal::FileFailed { path: TARGET_MIRROR@, words: words@ },
        ),
        TextFile::Text(content) => Ok(trimmed_entries(lines_of(content@), comments)),
    }
}

fn read_target_file(file: &TextFile, comments: bool) -> (r: Result<Vec<String>, EngineError>)
    ensures
        texts_answer(r) == file_targets(*file, comments),
{
    match file {
        TextFile::Missing { .. } => {
            let none: Vec<String> = Vec::new();
            assert(texts(none@) == Seq::<Seq<char>>::empty());
            Ok(none)
        },
        TextFile::Unreadable { words } => Err(
            Refusal::FileFailed { path: TARGET_MIRROR.to_owned(), words: words.clone() },
        ),
        TextFile::Text(content) => Ok(trim_entries(&lines(content.as_str()), comments)),
    }
}

/// The targets that TrickyStore takes from its file.
pub fn read_tricky_targets(file: &TextFile) -> (r: Result<Vec<String>, EngineError>)
    ensures
        texts_answer(r) == file_targets(*file, false),
{
    read_target_file(file, false)
}

/// The lines of the TrickyStore file, comments among them.
pub fn read_tricky_lines(file: &TextFile) -> (r: Result<Vec<String>, EngineError>)
    ensures
        texts_answer(r) == file_targets(*file, true),
{
    read_target_file(file, true)
}

/// A text that stands in a line of its own: not empty, without a line feed, and without
/// white space at its ends.
pub open spec fn is_line(entry: Seq<char>) -> bool {
    entry.len() > 0 && is_tight(entry) && !entry.contains('\n')
}

proof fn lemma_list_lines(entries: Seq<Seq<char>>)
    requires
        forall|i: int| 0 <= i < entries.len() ==> is_line(#[trigger] entries[i]),
    ensures
        lines_of(list_text(entries)) == entries,
        list_text(entries).len() == 0 || list_text(entries).last() == '\n',
        entries.len() > 0 ==> list_text(entries) == joined(entries, "\n"@) + "\n"@,
    decreases entries.len(),
{
    reveal_strlit("\n");
    assert("\n"@ == seq!['\n']);
    if entries.len() > 0 {
        let before = entries.drop_last();
        let last = entries.last();
        assert(is_line(entries[entries.len() - 1]));
        assert forall|i: int| 0 <= i < before.len() implies is_line(#[trigger] before[i]) by {
            assert(before[i] == entries[i]);
        }
        lemma_list_lines(before);
        if entries.len() == 1 {
            assert(before == Seq::<Seq<char>>::empty());
            assert(list_text(before) == Seq::<char>::empty());
            assert(joined(entries, "\n"@) == last);
        } else {
            assert(joined(entries, "\n"@) == list_text(before) + last);
        }
        assert(list_text(entries) == list_text(before) + last + seq!['\n']);
        lemma_line_behind(list_text(before), last);
        assert(is_white('\r'));
        assert(without_return(last) == last);
        assert(before.push(last) == entries);
    }
}

proof fn lemma_trimmed_lines(entries: Seq<Seq<char>>, comments: bool)
    requires
        forall|i: int|
            0 <= i < entries.len() ==> is_line(#[trigger] entries[i]) && (comments || !is_comment(
                entries[i],
            )),
    ensures
        trimmed_entries(entries, comments) == entries,
    decreases entries.len(),
{
    if entries.len() > 0 {
        let before = entries.drop_last();
        assert forall|i: int| 0 <= i < before.len() implies is_line(#[trigger] before[i]) && (
        comments || !is_comment(before[i])) by {
            assert(before[i] == entries[i]);
        }
        lemma_trimmed_lines(before, comments);
        assert(is_line(entries[entries.len() - 1]));
        lemma_trimmed(entries.last());
        assert(before.push(entries.last()) == entries);
    }
}

/// What is written as a list of targets is read back from it, in the same order, where
/// each entry can stand in a line of its own, and is no comment unless comments are read.
pub proof fn law_list_is_read_back(entries: Seq<Seq<char>>, comments: bool)
    requires
        forall|i: int|
            0 <= i < entries.len() ==> is_line(#[trigger] entries[i]) && (comments || !is_comment(
                entries[i],
            )),
    ensures
        trimmed_entries(lines_of(list_text(entries)), comments) == entries,
{
    lemma_list_lines(entries);
    lemma_trimmed_lines(entries, comments);
}

/// Trimmed entries without a line feed can stand in lines of their own.
pub proof fn lemma_trimmed_are_lines(entries: Seq<Seq<char>>, comments: bool)
    requires
        forall|i: int| 0 <= i < entries.len() ==> !trimmed(#[trigger] entries[i]).contains('\n'),
    ensures
        forall|i: int|
            0 <= i < trimmed_entries(entries, comments).len() ==> is_line(
                #[trigger] trimmed_entries(entries, comments)[i],
            ),
        trimmed_entries(trimmed_entries(entries, true), comments) == trimmed_entries(
            entries,
            comments,
        ),
    decreases entries.len(),
{
    if entries.len() > 0 {
        let before = entries.drop_last();
        assert forall|i: int| 0 <= i < before.len() implies !trimmed(
            #[trigger] before[i],
        ).contains('\n') by {
            assert(before[i] == entries[i]);
        }
        lemma_trimmed_are_lines(before, comments);
        assert(!trimmed(entries[entries.len() - 1]).contains('\n'));
        let entry = trimmed(entries.last());
        lemma_trimmed(entries.last());
        if entry.len() > 0 {
            let all = trimmed_entries(before, true);
            assert(trimmed_entries(entries, true) == all.push(entry));
            assert(all.push(entry).drop_last() == all);
            assert(trimmed(entry) == entry);
        }
    }
}

/// TrickyStore reads the targets that were written for it, without the white space
/// around them, the empty ones and the comments. An entry with a line feed inside would
/// be read as two.
pub proof fn law_written_targets_are_read_back(entries: Seq<Seq<char>>, comments: bool)
    requires
        forall|i: int| 0 <= i < entries.len() ==> !trimmed(#[trigger] entries[i]).contains('\n'),
    ensures
        trimmed_entries(lines_of(list_text(trimmed_entries(entries, true))), comments)
            == trimmed_entries(entries, comments),
{
    lemma_trimmed_are_lines(entries, true);
    lemma_list_lines(trimmed_entries(entries, true));
    lemma_trimmed_are_lines(entries, comments);
}

/// A bare target ends with no mark.
pub proof fn lemma_bare_target(entry: Seq<char>)
    ensures
        bare_target(entry).len() > 0 ==> bare_target(entry).last() != '!' && bare_target(
            entry,
        ).last() != '?',
{
    lemma_without_marks(trimmed(entry));
}

proof fn lemma_without_marks(s: Seq<char>)
    ensures
        trim_end_marks(s, '!', '?').len() > 0 ==> trim_end_marks(s, '!', '?').last() != '!'
            && trim_end_marks(s, '!', '?').last() != '?',
    decreases s.len(),
{
    if s.len() > 0 && (s.last() == '!' || s.last() == '?') {
        lemma_without_marks(s.drop_last());
    }
}

/// An entry that normalisation keeps: neither empty nor a comment, and without a mark
/// behind it.
pub open spec fn is_normal_target(entry: Seq<char>) -> bool {
    &&& entry.len() > 0
    &&& !is_comment(entry)
    &&& entry.last() != '!'
    &&& entry.last() != '?'
}

/// Normalisation keeps each target that the entries stand for, once, without its marks,
/// and keeps nothing else.
pub proof fn law_normal_targets(entries: Seq<Seq<char>>)
    ensures
        normal_targets(entries).no_duplicates(),
        forall|i: int|
            0 <= i < normal_targets(entries).len() ==> is_normal_target(
                #[trigger] normal_targets(entries)[i],
            ),
        forall|target: Seq<char>|
            #[trigger] normal_targets(entries).contains(target) ==> exists|k: int|
                0 <= k < entries.len() && bare_target(#[trigger] entries[k]) == target,
        forall|k: int|
            0 <= k < entries.len() && is_normal_target(bare_target(#[trigger] entries[k]))
                ==> normal_targets(entries).contains(bare_target(entries[k])),
    decreases entries.len(),
{
    if entries.len() > 0 {
        let before = entries.drop_last();
        let rest = normal_targets(before);
        let entry = bare_target(entries.last());
        let all = normal_targets(entries);
        law_normal_targets(before);
        lemma_bare_target(entries.last());
        if entry.len() > 0 && !is_comment(entry) && !rest.contains(entry) {
            assert(all == rest.push(entry));
            assert(all[rest.len() as int] == entry);
            assert forall|c: Seq<char>| rest.contains(c) implies all.contains(c) by {
                let k = choose|k: int| 0 <= k < rest.len() && rest[k] == c;
                assert(all[k] == c);
            }
            assert forall|a: int, b: int|
                0 <= a < all.len() && 0 <= b < all.len() && a != b implies all[a] != all[b] by {
                if a < rest.len() {
                    assert(rest.contains(rest[a]));
                }
                if b < rest.len() {
                    assert(rest.contains(rest[b]));
                }
            }
        }
        assert forall|target: Seq<char>| #[trigger] all.contains(target) implies exists|k: int|
            0 <= k < entries.len() && bare_target(#[trigger] entries[k]) == target by {
            if rest.contains(target) {
                let k = choose|k: int|
                    0 <= k < before.len() && bare_target(#[trigger] before[k]) == target;
                assert(bare_target(entries[k]) == target);
            } else {
                assert(bare_target(entries[entries.len() - 1]) == target);
            }
        }
        assert forall|k: int|
            0 <= k < entries.len() && is_normal_target(
                bare_target(#[trigger] entries[k]),
            ) implies all.contains(bare_target(entries[k])) by {
            if k < before.len() {
                assert(before[k] == entries[k]);
            }
        }
    }
}

/// Normalising takes the repetitions from entries that are as it leaves them.
pub proof fn lemma_normal_entries(entries: Seq<Seq<char>>)
    requires
        forall|i: int|
            0 <= i < entries.len() ==> is_normal_target(#[trigger] entries[i]) && is_tight(
                entries[i],
            ),
    ensures
        normal_targets(entries) == first_occurrences(entries),
    decreases entries.len(),
{
    if entries.len() > 0 {
        let before = entries.drop_last();
        let last = entries.last();
        assert(is_normal_target(entries[entries.len() - 1]) && is_tight(
            entries[entries.len() - 1],
        ));
        assert forall|i: int| 0 <= i < before.len() implies is_normal_target(#[trigger] before[i])
            && is_tight(before[i]) by {
            assert(before[i] == entries[i]);
        }
        lemma_normal_entries(before);
        lemma_trimmed(last);
        assert(bare_target(last) == last);
    }
}

/// Where nothing is repeated, every entry is a first occurrence.
pub proof fn lemma_without_repetitions(entries: Seq<Seq<char>>)
    ensures
        entries.no_duplicates() ==> first_occurrences(entries) == entries,
    decreases entries.len(),
{
    if entries.len() > 0 && entries.no_duplicates() {
        let before = entries.drop_last();
        assert(before.no_duplicates());
        lemma_without_repetitions(before);
        assert(!before.contains(entries.last()));
        assert(before.push(entries.last()) == entries);
    }
}

proof fn lemma_bare_start(entry: Seq<char>)
    ensures
        bare_target(entry).len() > 0 ==> !is_white(bare_target(entry).first()),
{
    lemma_trimmed(entry);
    lemma_marks_start(trimmed(entry));
}

proof fn lemma_marks_start(s: Seq<char>)
    ensures
        trim_end_marks(s, '!', '?').len() > 0 ==> s.len() > 0 && trim_end_marks(s, '!', '?').first()
            == s.first(),
    decreases s.len(),
{
    if s.len() > 0 && (s.last() == '!' || s.last() == '?') {
        lemma_marks_start(s.drop_last());
    }
}

/// Normalising a second time changes nothing, where no target that is kept ends with white
/// space, as one does that had white space before its marks.
pub proof fn law_normalising_twice(entries: Seq<Seq<char>>)
    requires
        forall|i: int|
            0 <= i < normal_targets(entries).len() ==> !is_white(
                (#[trigger] normal_targets(entries)[i]).last(),
            ),
    ensures
        normal_targets(normal_targets(entries)) == normal_targets(entries),
{
    law_normal_targets(entries);
    let targets = normal_targets(entries);
    assert forall|i: int| 0 <= i < targets.len() implies is_normal_target(#[trigger] targets[i])
        && is_tight(targets[i]) by {
        assert(targets.contains(targets[i]));
        let k = choose|k: int|
            0 <= k < entries.len() && bare_target(#[trigger] entries[k]) == targets[i];
        lemma_bare_start(entries[k]);
    }
    lemma_normal_entries(targets);
    lemma_without_repetitions(targets);
}

} // verus!
