//! Laws of the lists of targets.
use crate::device::TextFile;
use crate::error::Refusal;
use crate::laws::text::{is_blank, law_joining, law_marks_go, law_trimming};
use crate::targets::{bare_target, file_targets, list_text, normal_targets, trimmed_entries};
use crate::text::{is_white, joined, lines_of, trimmed};
use vstd::prelude::*;

verus! {

/// An entry loses the white space around it and then the marks at its end, and nothing
/// else.
pub proof fn law_bare_target(
    before: Seq<char>,
    core: Seq<char>,
    marks: Seq<char>,
    behind: Seq<char>,
)
    requires
        is_blank(before),
        is_blank(behind),
        forall|i: int| 0 <= i < marks.len() ==> #[trigger] marks[i] == '!' || marks[i] == '?',
        core.len() > 0 ==> core.last() != '!' && core.last() != '?' && !is_white(core.first()),
        marks.len() == 0 && core.len() > 0 ==> !is_white(core.last()),
    ensures
        bare_target(before + core + marks + behind) == core,
{
    let inner = core + marks;
    if marks.len() > 0 {
        assert(marks[marks.len() - 1] == '!' || marks[marks.len() - 1] == '?');
        assert(marks[0] == '!' || marks[0] == '?');
        assert(inner.last() == marks.last());
        assert(core.len() == 0 ==> inner.first() == marks[0]);
    } else {
        assert(inner == core);
    }
    assert(core.len() > 0 ==> inner.first() == core.first());
    law_trimming(before, inner, behind);
    assert(before + core + marks + behind == before + inner + behind);
    law_marks_go(core, marks, '!', '?');
}

/// A list is normalised from its front: more entries add targets behind, and the one
/// entry more adds its bare form, unless that is empty, a comment, or there already.
pub proof fn law_normalising_goes_on(entries: Seq<Seq<char>>, entry: Seq<char>)
    ensures
        normal_targets(seq![]) == Seq::<Seq<char>>::empty(),
        ({
            let bare = bare_target(entry);
            let before = normal_targets(entries);
            &&& bare.len() == 0 || bare[0] == '#' || before.contains(bare) ==> normal_targets(
                entries.push(entry),
            ) == before
            &&& bare.len() > 0 && bare[0] != '#' && !before.contains(bare) ==> normal_targets(
                entries.push(entry),
            ) == before.push(bare)
        }),
{
    let all = entries.push(entry);
    assert(all.drop_last() == entries);
    assert(all.last() == entry);
}

/// Every target that is kept stands for an entry, is not empty, begins with no `#` and
/// ends with no mark, and no two are the same; and every entry that stands for such a
/// target has it kept.
pub proof fn law_kept_targets(entries: Seq<Seq<char>>, i: int, k: int)
    ensures
        0 <= i < normal_targets(entries).len() ==> {
            let target = normal_targets(entries)[i];
            &&& target.len() > 0
            &&& target[0] != '#'
            &&& target.last() != '!'
            &&& target.last() != '?'
        },
        0 <= i < k < normal_targets(entries).len() ==> normal_targets(entries)[i]
            != normal_targets(entries)[k],
        0 <= k < entries.len() && bare_target(entries[k]).len() > 0 && bare_target(entries[k])[0]
            != '#' ==> normal_targets(entries).contains(bare_target(entries[k])),
{
    crate::targets::law_normal_targets(entries);
    if 0 <= i < normal_targets(entries).len() {
        assert(crate::targets::is_normal_target(normal_targets(entries)[i]));
    }
    if 0 <= k < entries.len() {
        crate::targets::lemma_bare_target(entries[k]);
    }
}

/// Trimming a list trims each entry by itself, and drops it where nothing is left, or a
/// comment that is not wanted.
pub proof fn law_trimmed_list(
    a: Seq<Seq<char>>,
    b: Seq<Seq<char>>,
    entry: Seq<char>,
    comments: bool,
)
    ensures
        trimmed_entries(seq![], comments) == Seq::<Seq<char>>::empty(),
        trimmed_entries(a + b, comments) == trimmed_entries(a, comments) + trimmed_entries(
            b,
            comments,
        ),
        trimmed_entries(seq![entry], comments) == if trimmed(entry).len() == 0 || (!comments
            && trimmed(entry)[0] == '#') {
            Seq::<Seq<char>>::empty()
        } else {
            seq![trimmed(entry)]
        },
    decreases b.len(),
{
    let single = seq![entry];
    assert(single.drop_last() == Seq::<Seq<char>>::empty());
    assert(trimmed_entries(Seq::<Seq<char>>::empty(), comments) == Seq::<Seq<char>>::empty());
    assert(trimmed_entries(single, comments) == if trimmed(entry).len() == 0 || (!comments
        && trimmed(entry)[0] == '#') {
        Seq::<Seq<char>>::empty()
    } else {
        seq![trimmed(entry)]
    });
    let all = a + b;
    if b.len() > 0 {
        law_trimmed_list(a, b.drop_last(), entry, comments);
        assert(all.drop_last() == a + b.drop_last());
        assert(all.last() == b.last());
        assert(trimmed_entries(all, comments) == trimmed_entries(a, comments) + trimmed_entries(
            b,
            comments,
        ));
    } else {
        assert(all == a);
        assert(trimmed_entries(a, comments) + trimmed_entries(b, comments) == trimmed_entries(
            a,
            comments,
        ));
    }
}

/// Each entry of a list is written with one line feed behind it and nothing before it.
pub proof fn law_list_is_written_line_by_line(entries: Seq<Seq<char>>, entry: Seq<char>)
    requires
        entry.len() > 0,
        entries.len() > 0 ==> list_text(entries).len() > 0,
    ensures
        list_text(seq![]) == Seq::<char>::empty(),
        list_text(entries.push(entry)) == list_text(entries) + entry + seq!['\n'],
{
    reveal_strlit("\n");
    assert("\n"@ == seq!['\n']);
    let all = entries.push(entry);
    law_joining(entries, seq![entry], "\n"@, entry);
    assert(all == entries + seq![entry]);
    if entries.len() == 0 {
        assert(all == seq![entry]);
        assert(list_text(entries) == Seq::<char>::empty());
    }
    assert(list_text(all) == list_text(entries) + entry + seq!['\n']);
}

/// A list is written as its entries with line feeds between them, and one behind them
/// unless that is nothing at all.
pub proof fn law_written_list(entries: Seq<Seq<char>>)
    ensures
        joined(entries, seq!['\n']).len() == 0 ==> list_text(entries).len() == 0,
        joined(entries, seq!['\n']).len() > 0 ==> list_text(entries) == joined(
            entries,
            seq!['\n'],
        ).push('\n'),
{
    reveal_strlit("\n");
    assert("\n"@ == seq!['\n']);
    let content = joined(entries, seq!['\n']);
    assert(content + "\n"@ == content.push('\n'));
}

/// A missing file has no targets, one that cannot be read is refused with its words, and
/// any other has those of its lines.
pub proof fn law_target_file(file: TextFile, comments: bool)
    ensures
        match file {
            TextFile::Missing { .. } => file_targets(file, comments) == Ok::<
                Seq<Seq<char>>,
                Refusal<Seq<char>>,
            >(seq![]),
            TextFile::Unreadable { words } => file_targets(file, comments) == Err::<
                Seq<Seq<char>>,
                Refusal<Seq<char>>,
            >(
                Refusal::FileFailed {
                    path: "/data/adb/tricky_store/target.txt"@,
                    words: words@,
                },
            ),
            TextFile::Text(content) => file_targets(file, comments) == Ok::<
                Seq<Seq<char>>,
                Refusal<Seq<char>>,
            >(trimmed_entries(lines_of(content@), comments)),
        },
{
}

} // verus!
