//! The packages in the list of targets, and the record of those that were added
//! automatically.
use crate::device::{Device, TextFile};
use crate::engine::{
    device_targets, engine_of, is_read_back, lemma_selected_apps, plan_answer, read_targets,
    stored_config, target_plan, write_targets, Engine, PlanView, TargetPlan,
};
use crate::error::{texts_answer, EngineError, Refusal};
use crate::profiles::setting_of;
use crate::targets::{
    bare_target, file_targets, is_line, is_normal_target, law_list_is_read_back, law_normal_targets,
    lemma_trimmed_are_lines, list_text, normal_targets, read_tricky_lines, trimmed_entries,
    write_target_mirror,
};
use crate::text::{
    is_tight, lemma_last_line_feed, lemma_line_behind, lemma_lines_without_feeds, lemma_trimmed,
    lemma_trimmed_return, lines, lines_of, same, starts_with, texts, trim, trim_end, trim_end_marks,
    trimmed, without_return,
};
use vstd::prelude::*;

verus! {

/// The record of the packages that were added automatically.
pub const AUTO_ADDED: &'static str = "/data/adb/tricky_store/.automation/auto_added.txt";

/// A package name without the marks behind it: first `!`, then `?`.
pub open spec fn bare_name(s: Seq<char>) -> Seq<char> {
    trim_end_marks(trim_end_marks(s, '!', '!'), '?', '?')
}

/// A package name without the marks behind it.
pub fn strip_suffix(s: &str) -> (r: &str)
    ensures
        r@ == bare_name(s@),
{
    trim_end(trim_end(s, '!', '!'), '?', '?')
}

/// Whether a pattern covers a package: as a prefix where it ends with `*`, else as a
/// whole.
pub open spec fn covers(pattern: Seq<char>, pkg: Seq<char>) -> bool {
    if pattern.len() > 0 && pattern.last() == '*' {
        pattern.drop_last().is_prefix_of(pkg)
    } else {
        pkg == pattern
    }
}

/// Whether some pattern covers a package.
pub open spec fn is_covered(pkg: Seq<char>, patterns: Seq<Seq<char>>) -> bool {
    exists|i: int| 0 <= i < patterns.len() && covers(#[trigger] patterns[i], pkg)
}

/// Whether some pattern covers a package.
pub fn is_excluded(pkg: &str, exclude_list: &Vec<String>) -> (r: bool)
    ensures
        r == is_covered(pkg@, texts(exclude_list@)),
{
    let ghost patterns = texts(exclude_list@);
    let mut i: usize = 0;
    while i < exclude_list.len()
        invariant
            i <= exclude_list.len(),
            patterns == texts(exclude_list@),
            forall|k: int| 0 <= k < i ==> !covers(#[trigger] patterns[k], pkg@),
        decreases exclude_list.len() - i,
    {
        let pattern: &str = exclude_list[i].as_str();
        let n: usize = pattern.unicode_len();
        let found: bool = if n > 0 && pattern.get_char(n - 1) == '*' {
            assert(pattern@.drop_last() == pattern@.subrange(0, n - 1));
            starts_with(pkg, pattern.substring_char(0, n - 1))
        } else {
            same(pkg, pattern)
        };
        if found {
            assert(covers(patterns[i as int], pkg@));
            return true;
        }
        i += 1;
    }
    false
}

/// The bare names of a list.
pub open spec fn bare_names(entries: Seq<Seq<char>>) -> Seq<Seq<char>> {
    Seq::new(entries.len(), |i: int| bare_name(entries[i]))
}

/// Reads the targets of a device without their marks.
pub fn read_target(device: &Device) -> (r: Result<Vec<String>, EngineError>)
    ensures
        texts_answer(r) == match device_targets(*device) {
            Ok(targets) => Ok(bare_names(targets)),
            Err(e) => Err(e),
        },
{
    match read_targets(device) {
        Err(e) => Err(e),
        Ok(entries) => {
            let mut out: Vec<String> = Vec::new();
            let mut i: usize = 0;
            while i < entries.len()
                invariant
                    i <= entries.len(),
                    out@.len() == i,
                    forall|k: int|
                        0 <= k < i ==> (#[trigger] out@[k])@ == bare_name(entries@[k]@),
                decreases entries.len() - i,
            {
                out.push(strip_suffix(entries[i].as_str()).to_owned());
                i += 1;
            }
            assert(texts(out@) == bare_names(texts(entries@)));
            Ok(out)
        },
    }
}

/// The lines of the list of targets, with their marks, and with the comments where
/// TrickyStore is the engine.
pub open spec fn target_lines(device: Device) -> Result<Seq<Seq<char>>, Refusal<Seq<char>>> {
    match engine_of(device.modules) {
        Engine::TrickyStore => file_targets(device.target_mirror, true),
        Engine::TeeSimulatorV4 => device_targets(device),
    }
}

/// Reads the lines of the list of targets.
pub fn read_target_raw(device: &Device) -> (r: Result<Vec<String>, EngineError>)
    ensures
        texts_answer(r) == target_lines(*device),
{
    if Engine::detect(&device.modules) == Engine::TrickyStore {
        return read_tricky_lines(&device.target_mirror);
    }
    read_targets(device)
}

/// What is to be written for the lines of a list of targets.
pub open spec fn lines_plan(device: Device, entries: Seq<Seq<char>>) -> Result<
    PlanView,
    Refusal<Seq<char>>,
> {
    match engine_of(device.modules) {
        Engine::TrickyStore => Ok(PlanView { config: None, mirror: list_text(entries) }),
        Engine::TeeSimulatorV4 => target_plan(device, entries),
    }
}

/// What is to be written for the lines of a list of targets: TrickyStore takes them as
/// they are.
pub fn write_target(device: &Device, entries: &Vec<String>) -> (r: Result<
    TargetPlan,
    EngineError,
>)
    ensures
        plan_answer(r) == lines_plan(*device, texts(entries@)),
        r matches Ok(plan) ==> engine_of(device.modules) == Engine::TeeSimulatorV4 ==> is_read_back(
            *device,
            plan@,
            normal_targets(texts(entries@)),
        ),
{
    if Engine::detect(&device.modules) == Engine::TrickyStore {
        return Ok(TargetPlan { config: None, mirror: write_target_mirror(entries) });
    }
    write_targets(device, entries)
}

/// Whether a line stands for the package of this bare name.
pub open spec fn has_bare(lines: Seq<Seq<char>>, bare: Seq<char>) -> bool {
    exists|i: int| 0 <= i < lines.len() && bare_name(#[trigger] lines[i]) == bare
}

fn lists_package(lines: &Vec<String>, bare: &str) -> (r: bool)
    ensures
        r == has_bare(texts(lines@), bare@),
{
    let ghost all = texts(lines@);
    let mut i: usize = 0;
    while i < lines.len()
        invariant
            i <= lines.len(),
            all == texts(lines@),
            forall|k: int| 0 <= k < i ==> bare_name(#[trigger] all[k]) != bare@,
        decreases lines.len() - i,
    {
        if same(strip_suffix(lines[i].as_str()), bare) {
            assert(bare_name(all[i as int]) == bare@);
            return true;
        }
        i += 1;
    }
    false
}

/// What came of a request that may leave everything as it is.
pub open spec fn change_answer(r: Result<Option<TargetPlan>, EngineError>) -> Result<
    Option<PlanView>,
    Refusal<Seq<char>>,
> {
    match r {
        Ok(Some(plan)) => Ok(Some(plan@)),
        Ok(None) => Ok(None),
        Err(e) => Err(e@),
    }
}

/// A plan that is to be carried out.
pub open spec fn some_plan(plan: Result<PlanView, Refusal<Seq<char>>>) -> Result<
    Option<PlanView>,
    Refusal<Seq<char>>,
> {
    match plan {
        Ok(plan) => Ok(Some(plan)),
        Err(e) => Err(e),
    }
}

/// The lines after a package was added: it comes last, unless it is excluded or
/// already there.
pub open spec fn with_package(
    lines: Seq<Seq<char>>,
    pkg: Seq<char>,
    patterns: Seq<Seq<char>>,
) -> Option<Seq<Seq<char>>> {
    if is_covered(pkg, patterns) || has_bare(lines, bare_name(pkg)) {
        None
    } else {
        Some(lines.push(pkg))
    }
}

/// What is to be written to add a package.
pub open spec fn add_plan(device: Device, pkg: Seq<char>, patterns: Seq<Seq<char>>) -> Result<
    Option<PlanView>,
    Refusal<Seq<char>>,
> {
    if is_covered(pkg, patterns) {
        Ok(None)
    } else {
        match target_lines(device) {
            Err(e) => Err(e),
            Ok(lines) => match with_package(lines, pkg, patterns) {
                None => Ok(None),
                Some(after) => some_plan(lines_plan(device, after)),
            },
        }
    }
}

/// What is to be written to add a package; nothing where it is excluded or already a
/// target.
pub fn add_package(device: &Device, pkg: &str, exclude_list: &Vec<String>) -> (r: Result<
    Option<TargetPlan>,
    EngineError,
>)
    ensures
        change_answer(r) == add_plan(*device, pkg@, texts(exclude_list@)),
        r matches Ok(Some(plan)) ==> engine_of(device.modules) == Engine::TeeSimulatorV4 ==> (
        target_lines(*device) matches Ok(lines) ==> is_read_back(
            *device,
            plan@,
            normal_targets(lines.push(pkg@)),
        )),
{
    if is_excluded(pkg, exclude_list) {
        return Ok(None);
    }
    match read_target_raw(device) {
        Err(e) => Err(e),
        Ok(lines) => {
            if lists_package(&lines, strip_suffix(pkg)) {
                return Ok(None);
            }
            let ghost before = texts(lines@);
            let mut lines: Vec<String> = lines;
            lines.push(pkg.to_owned());
            assert(texts(lines@) == before.push(pkg@));
            match write_target(device, &lines) {
                Err(e) => Err(e),
                Ok(plan) => Ok(Some(plan)),
            }
        },
    }
}

/// The lines that do not stand for the package of this bare name.
pub open spec fn without_bare(lines: Seq<Seq<char>>, bare: Seq<char>) -> Seq<Seq<char>>
    decreases lines.len(),
{
    if lines.len() == 0 {
        seq![]
    } else if bare_name(lines.last()) == bare {
        without_bare(lines.drop_last(), bare)
    } else {
        without_bare(lines.drop_last(), bare).push(lines.last())
    }
}

fn drop_package(lines: &Vec<String>, bare: &str) -> (r: Vec<String>)
    ensures
        texts(r@) == without_bare(texts(lines@), bare@),
{
    let ghost all = texts(lines@);
    let mut out: Vec<String> = Vec::new();
    let mut i: usize = 0;
    assert(all.take(0) == Seq::<Seq<char>>::empty());
    assert(texts(out@) == Seq::<Seq<char>>::empty());
    while i < lines.len()
        invariant
            i <= lines.len(),
            all == texts(lines@),
            texts(out@) == without_bare(all.take(i as int), bare@),
        decreases lines.len() - i,
    {
        let ghost before = texts(out@);
        assert(all.take(i + 1).drop_last() == all.take(i as int));
        assert(all.take(i + 1).last() == lines@[i as int]@);
        if !same(strip_suffix(lines[i].as_str()), bare) {
            out.push(lines[i].clone());
            assert(texts(out@) == before.push(lines@[i as int]@));
        }
        i += 1;
    }
    assert(all.take(i as int) == all);
    out
}

/// What is to be written to remove a package.
pub open spec fn remove_plan(device: Device, pkg: Seq<char>) -> Result<
    Option<PlanView>,
    Refusal<Seq<char>>,
> {
    match target_lines(device) {
        Err(e) => Err(e),
        Ok(lines) => {
            let after = without_bare(lines, bare_name(pkg));
            if after.len() == lines.len() {
                Ok(None)
            } else {
                some_plan(lines_plan(device, after))
            }
        },
    }
}

/// What is to be written to remove a package; nothing where it is no target.
pub fn remove_package(device: &Device, pkg: &str) -> (r: Result<Option<TargetPlan>, EngineError>)
    ensures
        change_answer(r) == remove_plan(*device, pkg@),
        r matches Ok(Some(plan)) ==> engine_of(device.modules) == Engine::TeeSimulatorV4 ==> (
        target_lines(*device) matches Ok(lines) ==> is_read_back(
            *device,
            plan@,
            normal_targets(without_bare(lines, bare_name(pkg@))),
        )),
{
    match read_target_raw(device) {
        Err(e) => Err(e),
        Ok(lines) => {
            let filtered: Vec<String> = drop_package(&lines, strip_suffix(pkg));
            assert(texts(filtered@).len() == filtered@.len());
            assert(texts(lines@).len() == lines@.len());
            if filtered.len() == lines.len() {
                return Ok(None);
            }
            match write_target(device, &filtered) {
                Err(e) => Err(e),
                Ok(plan) => Ok(Some(plan)),
            }
        },
    }
}

/// The lines without the white space around them.
pub open spec fn trimmed_lines(lines: Seq<Seq<char>>) -> Seq<Seq<char>> {
    Seq::new(lines.len(), |i: int| trimmed(lines[i]))
}

/// Whether a line of the record stands for the package of this bare name.
fn record_has(record: &Vec<String>, bare: &str) -> (r: bool)
    ensures
        r == has_bare(trimmed_lines(texts(record@)), bare@),
{
    let ghost all = trimmed_lines(texts(record@));
    let mut i: usize = 0;
    while i < record.len()
        invariant
            i <= record.len(),
            all == trimmed_lines(texts(record@)),
            forall|k: int| 0 <= k < i ==> bare_name(#[trigger] all[k]) != bare@,
        decreases record.len() - i,
    {
        if same(strip_suffix(trim(record[i].as_str())), bare) {
            assert(bare_name(all[i as int]) == bare@);
            return true;
        }
        i += 1;
    }
    false
}

/// The record after a package was added automatically.
pub open spec fn record_with(existing: Seq<char>, pkg: Seq<char>) -> Option<Seq<char>> {
    if has_bare(trimmed_lines(lines_of(existing)), bare_name(pkg)) {
        None
    } else if existing.len() > 0 && existing.last() != '\n' {
        Some(existing + "\n"@ + pkg + "\n"@)
    } else {
        Some(existing + pkg + "\n"@)
    }
}

/// The record after a package was added automatically, where it changes. `existing` is
/// the record so far, empty where it could not be read.
pub fn record_auto_added(existing: &str, pkg: &str) -> (r: Option<String>)
    ensures
        match r {
            Some(content) => record_with(existing@, pkg@) == Some(content@),
            None => record_with(existing@, pkg@) is None,
        },
{
    if record_has(&lines(existing), strip_suffix(pkg)) {
        return None;
    }
    let n: usize = existing.unicode_len();
    let mut content: String = existing.to_owned();
    if n > 0 && existing.get_char(n - 1) != '\n' {
        content.append("\n");
    }
    content.append(pkg);
    content.append("\n");
    Some(content)
}

/// The lines of the record that do not stand for the package of this bare name, each
/// with a line feed.
pub open spec fn record_without(lines: Seq<Seq<char>>, bare: Seq<char>) -> Seq<char>
    decreases lines.len(),
{
    if lines.len() == 0 {
        seq![]
    } else if bare_name(trimmed(lines.last())) == bare {
        record_without(lines.drop_last(), bare)
    } else {
        record_without(lines.drop_last(), bare) + lines.last() + "\n"@
    }
}

fn drop_from_record(record: &Vec<String>, bare: &str) -> (r: String)
    ensures
        r@ == record_without(texts(record@), bare@),
{
    let ghost all = texts(record@);
    let mut content: String = String::new();
    let mut i: usize = 0;
    assert(all.take(0) == Seq::<Seq<char>>::empty());
    while i < record.len()
        invariant
            i <= record.len(),
            all == texts(record@),
            content@ == record_without(all.take(i as int), bare@),
        decreases record.len() - i,
    {
        assert(all.take(i + 1).drop_last() == all.take(i as int));
        assert(all.take(i + 1).last() == record@[i as int]@);
        if !same(strip_suffix(trim(record[i].as_str())), bare) {
            content.append(record[i].as_str());
            content.append("\n");
        }
        i += 1;
    }
    assert(all.take(i as int) == all);
    content
}

/// The record after a package was forgotten; nothing is written where there is none.
pub fn forget_auto_added(file: &TextFile, pkg: &str) -> (r: Result<Option<String>, EngineError>)
    ensures
        match *file {
            TextFile::Missing { .. } => r matches Ok(None),
            TextFile::Unreadable { words } => r matches Err(e) && e@ == (Refusal::FileFailed {
                path: AUTO_ADDED@,
                words: words@,
            }),
            TextFile::Text(existing) => r matches Ok(Some(content)) && content@ == record_without(
                lines_of(existing@),
                bare_name(pkg@),
            ),
        },
{
    match file {
        TextFile::Missing { .. } => Ok(None),
        TextFile::Unreadable { words } => Err(
            Refusal::FileFailed { path: AUTO_ADDED.to_owned(), words: words.clone() },
        ),
        TextFile::Text(existing) => Ok(
            Some(drop_from_record(&lines(existing.as_str()), strip_suffix(pkg))),
        ),
    }
}

/// The record that holds the given packages.
pub fn write_auto_added(entries: &Vec<String>) -> (r: String)
    ensures
        r@ == list_text(texts(entries@)),
{
    write_target_mirror(entries)
}

/// Removing a package leaves no line that stands for it, leaves the others as they are
/// and in their order, and changes nothing where no line stands for it.
pub proof fn law_removed_package_is_gone(lines: Seq<Seq<char>>, bare: Seq<char>)
    ensures
        !has_bare(without_bare(lines, bare), bare),
        forall|line: Seq<char>|
            bare_name(line) != bare ==> #[trigger] without_bare(lines, bare).contains(line)
                == lines.contains(line),
        without_bare(lines, bare).len() <= lines.len(),
        without_bare(lines, bare).len() == lines.len() <==> !has_bare(lines, bare),
        !has_bare(lines, bare) ==> without_bare(lines, bare) == lines,
    decreases lines.len(),
{
    if lines.len() > 0 {
        let before = lines.drop_last();
        let last = lines.last();
        let rest = without_bare(before, bare);
        let all = without_bare(lines, bare);
        law_removed_package_is_gone(before, bare);
        assert(before.push(last) == lines);
        if has_bare(before, bare) {
            let k = choose|k: int|
                0 <= k < before.len() && bare_name(#[trigger] before[k]) == bare;
            assert(bare_name(lines[k]) == bare);
        }
        if has_bare(lines, bare) && !has_bare(before, bare) {
            let k = choose|k: int| 0 <= k < lines.len() && bare_name(#[trigger] lines[k]) == bare;
            if k < before.len() {
                assert(bare_name(before[k]) == bare);
            }
            assert(bare_name(last) == bare);
        }
        if bare_name(last) == bare {
            assert(bare_name(lines[lines.len() - 1]) == bare);
        } else {
            assert forall|k: int| 0 <= k < all.len() implies bare_name(#[trigger] all[k])
                != bare by {
                if k < rest.len() {
                    assert(bare_name(rest[k]) != bare);
                }
            }
        }
        assert forall|line: Seq<char>| bare_name(line) != bare implies #[trigger] all.contains(
            line,
        ) == lines.contains(line) by {
            assert(rest.contains(line) == before.contains(line));
            if lines.contains(line) {
                let k = choose|k: int| 0 <= k < lines.len() && lines[k] == line;
                if k < before.len() {
                    assert(before[k] == line);
                    let m = choose|m: int| 0 <= m < rest.len() && rest[m] == line;
                    assert(all[m] == line);
                } else {
                    assert(all[rest.len() as int] == line);
                }
            }
            if all.contains(line) {
                let k = choose|k: int| 0 <= k < all.len() && all[k] == line;
                if k < rest.len() {
                    assert(rest[k] == line);
                    let m = choose|m: int| 0 <= m < before.len() && before[m] == line;
                    assert(lines[m] == line);
                } else {
                    assert(lines[lines.len() - 1] == line);
                }
            }
        }
    }
}

/// A package that was added is in the list, is not added again, and is taken out again
/// by removing it, which gives back the lines from before.
pub proof fn law_removing_undoes_adding(
    lines: Seq<Seq<char>>,
    pkg: Seq<char>,
    patterns: Seq<Seq<char>>,
)
    requires
        with_package(lines, pkg, patterns) is Some,
    ensures
        has_bare(with_package(lines, pkg, patterns)->0, bare_name(pkg)),
        with_package(with_package(lines, pkg, patterns)->0, pkg, patterns) is None,
        without_bare(with_package(lines, pkg, patterns)->0, bare_name(pkg)) == lines,
{
    let after = lines.push(pkg);
    assert(bare_name(after[lines.len() as int]) == bare_name(pkg));
    assert(after.drop_last() == lines);
    law_removed_package_is_gone(lines, bare_name(pkg));
}

/// A package that some pattern covers is never added.
pub proof fn law_excluded_packages_stay_out(
    device: Device,
    pkg: Seq<char>,
    patterns: Seq<Seq<char>>,
)
    requires
        is_covered(pkg, patterns),
    ensures
        add_plan(device, pkg, patterns) == Ok::<Option<PlanView>, Refusal<Seq<char>>>(None),
{
}

/// The lines that TrickyStore's file holds can be written to it again.
proof fn lemma_file_lines(file: TextFile)
    requires
        file_targets(file, true) is Ok,
    ensures
        forall|i: int|
            0 <= i < file_targets(file, true)->Ok_0.len() ==> is_line(
                #[trigger] file_targets(file, true)->Ok_0[i],
            ),
{
    match file {
        TextFile::Text(content) => {
            lemma_lines_without_feeds(content@);
            assert forall|i: int| 0 <= i < lines_of(content@).len() implies !trimmed(
                #[trigger] lines_of(content@)[i],
            ).contains('\n') by {
                lemma_trimmed(lines_of(content@)[i]);
            }
            lemma_trimmed_are_lines(lines_of(content@), true);
        },
        _ => {},
    }
}

/// With TrickyStore, the lines that are read after a package was added are those from
/// before with the package behind them, comments and marks unchanged. A name that cannot
/// stand in a line of its own would be read as another one.
pub proof fn law_added_package_is_read_back(
    device: Device,
    pkg: Seq<char>,
    patterns: Seq<Seq<char>>,
)
    requires
        engine_of(device.modules) == Engine::TrickyStore,
        is_line(pkg),
        add_plan(device, pkg, patterns) matches Ok(Some(_)),
    ensures
        target_lines(device) is Ok,
        (add_plan(device, pkg, patterns)->Ok_0)->0.config is None,
        trimmed_entries(lines_of((add_plan(device, pkg, patterns)->Ok_0)->0.mirror), true)
            == target_lines(device)->Ok_0.push(pkg),
{
    let lines = target_lines(device)->Ok_0;
    lemma_file_lines(device.target_mirror);
    let after = lines.push(pkg);
    assert forall|i: int| 0 <= i < after.len() implies is_line(#[trigger] after[i]) by {
        if i < lines.len() {
            assert(is_line(lines[i]));
        }
    }
    law_list_is_read_back(after, true);
}

/// With TrickyStore, the lines that are read after a package was removed are those from
/// before that do not stand for it.
pub proof fn law_removed_package_is_not_read_back(device: Device, pkg: Seq<char>)
    requires
        engine_of(device.modules) == Engine::TrickyStore,
        remove_plan(device, pkg) matches Ok(Some(_)),
    ensures
        target_lines(device) is Ok,
        (remove_plan(device, pkg)->Ok_0)->0.config is None,
        trimmed_entries(lines_of((remove_plan(device, pkg)->Ok_0)->0.mirror), true)
            == without_bare(target_lines(device)->Ok_0, bare_name(pkg)),
        !has_bare(
            trimmed_entries(lines_of((remove_plan(device, pkg)->Ok_0)->0.mirror), true),
            bare_name(pkg),
        ),
{
    let lines = target_lines(device)->Ok_0;
    let bare = bare_name(pkg);
    lemma_file_lines(device.target_mirror);
    let after = without_bare(lines, bare);
    law_removed_package_is_gone(lines, bare);
    assert forall|i: int| 0 <= i < after.len() implies is_line(#[trigger] after[i]) by {
        assert(after.contains(after[i]));
        assert(bare_name(after[i]) != bare);
        let k = choose|k: int| 0 <= k < lines.len() && lines[k] == after[i];
        assert(is_line(lines[k]));
    }
    law_list_is_read_back(after, true);
}

/// With TEESimulator, the apps of the selected profile after a package was added are the
/// package without its marks and every app from before. A name that is nothing but marks
/// or a comment is no app.
pub proof fn law_added_app_joins_the_others(
    device: Device,
    pkg: Seq<char>,
    patterns: Seq<Seq<char>>,
)
    requires
        engine_of(device.modules) == Engine::TeeSimulatorV4,
        is_normal_target(bare_target(pkg)),
        add_plan(device, pkg, patterns) matches Ok(Some(_)),
    ensures
        target_lines(device) is Ok,
        normal_targets(target_lines(device)->Ok_0.push(pkg)).contains(
            bare_target(pkg),
        ),
        forall|i: int|
            0 <= i < target_lines(device)->Ok_0.len() ==> normal_targets(
                target_lines(device)->Ok_0.push(pkg),
            ).contains(#[trigger] target_lines(device)->Ok_0[i]),
{
    let lines = target_lines(device)->Ok_0;
    let after = lines.push(pkg);
    let config = stored_config(device.config, device.packages@)->Ok_0;
    lemma_selected_apps(config, setting_of(device.configured), device.packages@);
    law_normal_targets(after);
    assert(bare_target(after[lines.len() as int]) == bare_target(pkg));
    assert forall|i: int| 0 <= i < lines.len() implies normal_targets(after).contains(
        #[trigger] lines[i],
    ) by {
        lemma_trimmed(lines[i]);
        assert(bare_target(after[i]) == lines[i]);
    }
}

/// A name without line feeds and without white space at its ends.
pub open spec fn is_recordable(pkg: Seq<char>) -> bool {
    is_tight(pkg) && !pkg.contains('\n')
}

/// A package that was recorded is found in the record, where its name holds no line feed
/// and no white space at its ends.
pub proof fn law_recorded_package_is_found(existing: Seq<char>, pkg: Seq<char>)
    requires
        is_recordable(pkg),
        record_with(existing, pkg) is Some,
    ensures
        has_bare(trimmed_lines(lines_of(record_with(existing, pkg)->0)), bare_name(pkg)),
        record_with(record_with(existing, pkg)->0, pkg) is None,
{
    reveal_strlit("\n");
    assert("\n"@ == seq!['\n']);
    let content = record_with(existing, pkg)->0;
    let before = if existing.len() > 0 && existing.last() != '\n' {
        existing + "\n"@
    } else {
        existing
    };
    assert(content == before + pkg + seq!['\n']);
    lemma_line_behind(before, pkg);
    lemma_trimmed_return(pkg);
    lemma_trimmed(pkg);
    let found = trimmed_lines(lines_of(content));
    assert(found[lines_of(before).len() as int] == pkg);
    assert(bare_name(found[lines_of(before).len() as int]) == bare_name(pkg));
}

proof fn lemma_record_lines(lines: Seq<Seq<char>>, bare: Seq<char>)
    requires
        forall|i: int| 0 <= i < lines.len() ==> !(#[trigger] lines[i]).contains('\n'),
    ensures
        record_without(lines, bare).len() == 0 || record_without(lines, bare).last() == '\n',
        trimmed_lines(lines_of(record_without(lines, bare))) == without_bare(
            trimmed_lines(lines),
            bare,
        ),
    decreases lines.len(),
{
    reveal_strlit("\n");
    assert("\n"@ == seq!['\n']);
    if lines.len() == 0 {
        assert(trimmed_lines(lines_of(record_without(lines, bare))) == Seq::<Seq<char>>::empty());
        assert(trimmed_lines(lines) == Seq::<Seq<char>>::empty());
    } else {
        let before = lines.drop_last();
        let last = lines.last();
        assert(!lines[lines.len() - 1].contains('\n'));
        assert forall|i: int| 0 <= i < before.len() implies !(#[trigger] before[i]).contains(
            '\n',
        ) by {
            assert(before[i] == lines[i]);
        }
        lemma_record_lines(before, bare);
        assert(trimmed_lines(lines).drop_last() == trimmed_lines(before));
        assert(trimmed_lines(lines).last() == trimmed(last));
        if bare_name(trimmed(last)) != bare {
            let rest = record_without(before, bare);
            lemma_line_behind(rest, last);
            lemma_trimmed_return(last);
            assert(trimmed_lines(lines_of(rest).push(without_return(last))) == trimmed_lines(
                lines_of(rest),
            ).push(trimmed(last)));
        }
    }
}

/// A package that was forgotten is not found in the record, and every other line of the
/// record stays in its place, but for white space at its ends.
pub proof fn law_forgotten_package_is_gone(existing: Seq<char>, bare: Seq<char>)
    ensures
        trimmed_lines(lines_of(record_without(lines_of(existing), bare))) == without_bare(
            trimmed_lines(lines_of(existing)),
            bare,
        ),
        !has_bare(trimmed_lines(lines_of(record_without(lines_of(existing), bare))), bare),
{
    lemma_lines_without_feeds(existing);
    lemma_record_lines(lines_of(existing), bare);
    law_removed_package_is_gone(trimmed_lines(lines_of(existing)), bare);
}

/// Forgetting a package that was recorded gives back the lines of the record from before,
/// but for white space at their ends.
pub proof fn law_forgetting_undoes_recording(existing: Seq<char>, pkg: Seq<char>)
    requires
        is_recordable(pkg),
        record_with(existing, pkg) is Some,
    ensures
        trimmed_lines(
            lines_of(record_without(lines_of(record_with(existing, pkg)->0), bare_name(pkg))),
        ) == trimmed_lines(lines_of(existing)),
{
    reveal_strlit("\n");
    assert("\n"@ == seq!['\n']);
    let content = record_with(existing, pkg)->0;
    let bare = bare_name(pkg);
    let unended = existing.len() > 0 && existing.last() != '\n';
    let before = if unended {
        existing + "\n"@
    } else {
        existing
    };
    if unended {
        lemma_last_line_feed(existing);
    }
    assert(trimmed_lines(lines_of(before)) == trimmed_lines(lines_of(existing)));
    assert(content == before + pkg + seq!['\n']);
    lemma_line_behind(before, pkg);
    lemma_trimmed_return(pkg);
    lemma_trimmed(pkg);
    let lines = trimmed_lines(lines_of(existing));
    assert(trimmed_lines(lines_of(content)) == lines.push(pkg));
    law_forgotten_package_is_gone(content, bare);
    law_removed_package_is_gone(lines, bare);
    assert(lines.push(pkg).drop_last() == lines);
}

} // verus!
