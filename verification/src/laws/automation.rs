//! Laws of the packages among the targets, and of the automation commands.
use crate::automation::target::{
    add_plan, bare_name, bare_names, covers, has_bare, is_covered, lines_plan, record_with,
    record_without, remove_plan, target_lines, trimmed_lines, without_bare,
};
use crate::automation::{report_of, step_of, AutomationAction, StepView};
use crate::device::Device;
use crate::engine::{device_targets, engine_of, target_plan, Engine, PlanView};
use crate::error::Refusal;
use crate::laws::text::law_marks_go;
use crate::targets::{file_targets, list_text};
use crate::text::{decimal, is_white, lines_of, trimmed};
use vstd::prelude::*;

verus! {

/// A pattern with a star at its end covers every name that begins with what stands before
/// the star, whatever follows, and no other name; a pattern without one covers its own
/// name alone.
pub proof fn law_patterns(prefix: Seq<char>, rest: Seq<char>, pattern: Seq<char>, pkg: Seq<char>)
    ensures
        covers(prefix + seq!['*'], prefix + rest),
        covers(prefix + seq!['*'], pkg) ==> pkg.len() >= prefix.len() && forall|i: int|
            0 <= i < prefix.len() ==> pkg[i] == #[trigger] prefix[i],
        pattern.len() == 0 || pattern.last() != '*' ==> (covers(pattern, pkg) <==> pattern == pkg),
{
    let starred = prefix + seq!['*'];
    assert(starred.drop_last() == prefix);
    assert((prefix + rest).take(prefix.len() as int) == prefix);
    if covers(starred, pkg) {
        assert(prefix.is_prefix_of(pkg));
        assert forall|i: int| 0 <= i < prefix.len() implies pkg[i] == #[trigger] prefix[i] by {
            assert(pkg.take(prefix.len() as int)[i] == prefix[i]);
        }
    }
}

/// A package whose name begins with what stands before the star of a pattern in the list
/// is never added, whatever follows, and neither is one whose name is in the list.
pub proof fn law_patterns_keep_packages_out(
    device: Device,
    prefix: Seq<char>,
    rest: Seq<char>,
    pkg: Seq<char>,
    patterns: Seq<Seq<char>>,
)
    ensures
        patterns.contains(prefix + seq!['*']) ==> add_plan(device, prefix + rest, patterns) == Ok::<
            Option<PlanView>,
            Refusal<Seq<char>>,
        >(None),
        patterns.contains(pkg) ==> add_plan(device, pkg, patterns) == Ok::<
            Option<PlanView>,
            Refusal<Seq<char>>,
        >(None),
{
    law_patterns(prefix, rest, pkg, pkg);
    if patterns.contains(prefix + seq!['*']) {
        let i = choose|i: int|
            0 <= i < patterns.len() && patterns[i] == prefix + seq!['*'];
        assert(covers(patterns[i], prefix + rest));
    }
    if patterns.contains(pkg) {
        let i = choose|i: int| 0 <= i < patterns.len() && patterns[i] == pkg;
        if pkg.len() > 0 && pkg.last() == '*' {
            let front = pkg.drop_last();
            law_patterns(front, seq!['*'], pkg, pkg);
            assert(front + seq!['*'] == pkg);
        }
        assert(covers(patterns[i], pkg));
    }
}

/// A pattern of the list keeps this package out: it is its name, or has a star behind the
/// beginning of its name.
pub open spec fn is_kept_out(pkg: Seq<char>, patterns: Seq<Seq<char>>) -> bool {
    exists|i: int|
        0 <= i < patterns.len() && {
            let pattern = #[trigger] patterns[i];
            if pattern.len() > 0 && pattern[pattern.len() - 1] == '*' {
                pkg.len() >= pattern.len() - 1 && pkg.take(pattern.len() - 1) == pattern.take(
                    pattern.len() - 1,
                )
            } else {
                pattern == pkg
            }
        }
}

/// A line of the list stands for the same package: both are the same without their marks.
pub open spec fn is_target_already(lines: Seq<Seq<char>>, pkg: Seq<char>) -> bool {
    exists|i: int| 0 <= i < lines.len() && bare_name(#[trigger] lines[i]) == bare_name(pkg)
}

/// A package that no pattern keeps out and no line stands for is added behind the others,
/// and what is written is the list with it; any other package changes nothing.
pub proof fn law_adding(device: Device, pkg: Seq<char>, patterns: Seq<Seq<char>>)
    ensures
        is_kept_out(pkg, patterns) ==> add_plan(device, pkg, patterns) == Ok::<
            Option<PlanView>,
            Refusal<Seq<char>>,
        >(None),
        !is_kept_out(pkg, patterns) ==> match target_lines(device) {
            Err(e) => add_plan(device, pkg, patterns) == Err::<
                Option<PlanView>,
                Refusal<Seq<char>>,
            >(e),
            Ok(lines) => if is_target_already(lines, pkg) {
                add_plan(device, pkg, patterns) == Ok::<Option<PlanView>, Refusal<Seq<char>>>(None)
            } else {
                match lines_plan(device, lines.push(pkg)) {
                    Err(e) => add_plan(device, pkg, patterns) == Err::<
                        Option<PlanView>,
                        Refusal<Seq<char>>,
                    >(e),
                    Ok(plan) => add_plan(device, pkg, patterns) == Ok::<
                        Option<PlanView>,
                        Refusal<Seq<char>>,
                    >(Some(plan)),
                }
            },
        },
{
    assert(is_kept_out(pkg, patterns) <==> is_covered(pkg, patterns)) by {
        if is_kept_out(pkg, patterns) {
            let i = choose|i: int|
                0 <= i < patterns.len() && {
                    let pattern = #[trigger] patterns[i];
                    if pattern.len() > 0 && pattern[pattern.len() - 1] == '*' {
                        pkg.len() >= pattern.len() - 1 && pkg.take(pattern.len() - 1)
                            == pattern.take(pattern.len() - 1)
                    } else {
                        pattern == pkg
                    }
                };
            let pattern = patterns[i];
            assert(pattern.len() > 0 ==> pattern.drop_last() == pattern.take(pattern.len() - 1));
            assert(covers(pattern, pkg));
        }
        if is_covered(pkg, patterns) {
            let i = choose|i: int| 0 <= i < patterns.len() && covers(#[trigger] patterns[i], pkg);
            let pattern = patterns[i];
            assert(pattern.len() > 0 ==> pattern.drop_last() == pattern.take(pattern.len() - 1));
        }
    }
    if target_lines(device) is Ok {
        let lines = target_lines(device)->Ok_0;
        assert(is_target_already(lines, pkg) <==> has_bare(lines, bare_name(pkg)));
    }
}

/// A name loses the exclamation marks at its end and then the question marks, and nothing
/// else.
pub proof fn law_bare_name(core: Seq<char>, questions: Seq<char>, exclamations: Seq<char>)
    requires
        forall|i: int| 0 <= i < questions.len() ==> #[trigger] questions[i] == '?',
        forall|i: int| 0 <= i < exclamations.len() ==> #[trigger] exclamations[i] == '!',
        core.len() > 0 ==> core.last() != '?',
        core.len() > 0 && questions.len() == 0 ==> core.last() != '!',
    ensures
        bare_name(core + questions + exclamations) == core,
{
    let inner = core + questions;
    if questions.len() > 0 {
        assert(questions[questions.len() - 1] == '?');
        assert(inner.last() == questions.last());
    } else {
        assert(inner == core);
    }
    law_marks_go(inner, exclamations, '!', '!');
    law_marks_go(core, questions, '?', '?');
}

/// Each line is judged by itself when a package is removed: one that stands for it goes,
/// and any other stays as it is.
pub proof fn law_removing(
    a: Seq<Seq<char>>,
    b: Seq<Seq<char>>,
    line: Seq<char>,
    bare: Seq<char>,
)
    ensures
        without_bare(seq![], bare) == Seq::<Seq<char>>::empty(),
        without_bare(a + b, bare) == without_bare(a, bare) + without_bare(b, bare),
        without_bare(seq![line], bare) == if bare_name(line) == bare {
            Seq::<Seq<char>>::empty()
        } else {
            seq![line]
        },
    decreases b.len(),
{
    let single = seq![line];
    assert(single.drop_last() == Seq::<Seq<char>>::empty());
    assert(without_bare(Seq::<Seq<char>>::empty(), bare) == Seq::<Seq<char>>::empty());
    assert(without_bare(single, bare) == if bare_name(line) == bare {
        Seq::<Seq<char>>::empty()
    } else {
        seq![line]
    });
    let all = a + b;
    if b.len() > 0 {
        law_removing(a, b.drop_last(), line, bare);
        assert(all.drop_last() == a + b.drop_last());
        assert(all.last() == b.last());
        assert(without_bare(all, bare) == without_bare(a, bare) + without_bare(b, bare));
    } else {
        assert(all == a);
        assert(without_bare(a, bare) + without_bare(b, bare) == without_bare(a, bare));
    }
}

/// A package that no line stands for is not removed, and nothing is written; where a line
/// does, the list without those lines is.
pub proof fn law_removing_from_a_device(device: Device, pkg: Seq<char>)
    ensures
        match target_lines(device) {
            Err(e) => remove_plan(device, pkg) == Err::<Option<PlanView>, Refusal<Seq<char>>>(e),
            Ok(lines) => if !is_target_already(lines, pkg) {
                remove_plan(device, pkg) == Ok::<Option<PlanView>, Refusal<Seq<char>>>(None)
            } else {
                match lines_plan(device, without_bare(lines, bare_name(pkg))) {
                    Err(e) => remove_plan(device, pkg) == Err::<
                        Option<PlanView>,
                        Refusal<Seq<char>>,
                    >(e),
                    Ok(plan) => remove_plan(device, pkg) == Ok::<
                        Option<PlanView>,
                        Refusal<Seq<char>>,
                    >(Some(plan)),
                }
            },
        },
{
    if target_lines(device) is Ok {
        let lines = target_lines(device)->Ok_0;
        crate::automation::target::law_removed_package_is_gone(lines, bare_name(pkg));
        assert(is_target_already(lines, pkg) <==> has_bare(lines, bare_name(pkg)));
    }
}

/// The lines of TrickyStore are those of its file, comments among them, and are written as
/// they are; those of TEESimulator are its targets, and are written as targets are.
pub proof fn law_target_lines(device: Device, entries: Seq<Seq<char>>)
    ensures
        engine_of(device.modules) == Engine::TrickyStore ==> {
            &&& target_lines(device) == file_targets(device.target_mirror, true)
            &&& lines_plan(device, entries) == Ok::<PlanView, Refusal<Seq<char>>>(
                PlanView { config: None, mirror: list_text(entries) },
            )
        },
        engine_of(device.modules) == Engine::TeeSimulatorV4 ==> {
            &&& target_lines(device) == device_targets(device)
            &&& lines_plan(device, entries) == target_plan(device, entries)
        },
{
}

/// The targets are read without their marks, each in its place.
pub proof fn law_bare_names(entries: Seq<Seq<char>>, i: int)
    ensures
        bare_names(entries).len() == entries.len(),
        0 <= i < entries.len() ==> bare_names(entries)[i] == bare_name(entries[i]),
{
}

/// A package is recorded if and only if no line of the record stands for it. The record
/// then goes on where it ended, on a line of its own, and the package is all that it
/// gains.
pub proof fn law_recording(existing: Seq<char>, pkg: Seq<char>)
    ensures
        record_with(existing, pkg) is None <==> exists|i: int|
            0 <= i < lines_of(existing).len() && bare_name(
                trimmed(#[trigger] lines_of(existing)[i]),
            ) == bare_name(pkg),
        record_with(existing, pkg) matches Some(content) ==> {
            let end = pkg + seq!['\n'];
            &&& existing.is_prefix_of(content)
            &&& content.len() >= end.len() && content.skip(content.len() - end.len()) == end
            &&& existing.len() == 0 || existing.last() == '\n' ==> content.len() == existing.len()
                + end.len()
            &&& existing.len() > 0 && existing.last() != '\n' ==> content.len() == existing.len()
                + 1 + end.len() && content[existing.len() as int] == '\n'
        },
{
    reveal_strlit("\n");
    assert("\n"@ == seq!['\n']);
    let lines = lines_of(existing);
    let seen = trimmed_lines(lines);
    if has_bare(seen, bare_name(pkg)) {
        let i = choose|i: int|
            0 <= i < seen.len() && bare_name(#[trigger] seen[i]) == bare_name(pkg);
        assert(bare_name(trimmed(lines[i])) == bare_name(pkg));
    }
    if exists|i: int|
        0 <= i < lines.len() && bare_name(trimmed(#[trigger] lines[i])) == bare_name(pkg) {
        let i = choose|i: int|
            0 <= i < lines.len() && bare_name(trimmed(#[trigger] lines[i])) == bare_name(pkg);
        assert(bare_name(seen[i]) == bare_name(pkg));
    }
    if record_with(existing, pkg) is Some {
        let content = record_with(existing, pkg)->0;
        let end = pkg + seq!['\n'];
        assert(content.take(existing.len() as int) == existing);
        assert(content.skip(content.len() - end.len()) == end);
    }
}

/// Each line of the record is judged by itself when a package is forgotten: one that
/// stands for it goes, and any other is written as it is, with a line feed behind it.
pub proof fn law_forgetting(
    a: Seq<Seq<char>>,
    b: Seq<Seq<char>>,
    line: Seq<char>,
    bare: Seq<char>,
)
    ensures
        record_without(seq![], bare) == Seq::<char>::empty(),
        record_without(a + b, bare) == record_without(a, bare) + record_without(b, bare),
        record_without(seq![line], bare) == if bare_name(trimmed(line)) == bare {
            Seq::<char>::empty()
        } else {
            line + seq!['\n']
        },
    decreases b.len(),
{
    reveal_strlit("\n");
    assert("\n"@ == seq!['\n']);
    let single = seq![line];
    assert(single.drop_last() == Seq::<Seq<char>>::empty());
    assert(record_without(Seq::<Seq<char>>::empty(), bare) == Seq::<char>::empty());
    assert(record_without(single, bare) == if bare_name(trimmed(line)) == bare {
        Seq::<char>::empty()
    } else {
        line + seq!['\n']
    });
    let all = a + b;
    if b.len() > 0 {
        law_forgetting(a, b.drop_last(), line, bare);
        assert(all.drop_last() == a + b.drop_last());
        assert(all.last() == b.last());
        assert(record_without(all, bare) == record_without(a, bare) + record_without(b, bare));
    } else {
        assert(all == a);
        assert(record_without(a, bare) + record_without(b, bare) == record_without(a, bare));
    }
}

/// Choosing a profile checks the name without the white space around it, stores it as it
/// came, and exports the targets unless it is nothing but white space.
pub proof fn law_choosing_a_profile(name: String, enabled: bool)
    ensures
        step_of(AutomationAction::SelectProfile { name }, enabled) matches StepView::Select {
            choice,
            setting,
            export,
        } && choice == trimmed(name@) && setting == name@ && (export <==> exists|i: int|
            0 <= i < name@.len() && !is_white(#[trigger] name@[i])),
{
    let s = name@;
    crate::text::lemma_trimmed(s);
    if exists|i: int| 0 <= i < s.len() && !is_white(#[trigger] s[i]) {
        if trimmed(s).len() == 0 {
            let i = choose|i: int| 0 <= i < s.len() && !is_white(#[trigger] s[i]);
            lemma_nothing_left(s, i);
        }
    } else {
        if trimmed(s).len() > 0 {
            let c = trimmed(s)[0];
            assert(trimmed(s).contains(c));
            let i = choose|i: int| 0 <= i < s.len() && s[i] == c;
            assert(is_white(s[i]));
        }
    }
}

proof fn lemma_nothing_left(s: Seq<char>, i: int)
    requires
        0 <= i < s.len(),
        !is_white(s[i]),
    ensures
        trimmed(s).len() > 0,
    decreases s.len(),
{
    if is_white(s.first()) {
        let rest = s.drop_first();
        assert(rest[i - 1] == s[i]);
        lemma_nothing_left(rest, i - 1);
        assert(crate::text::trim_start(s) == crate::text::trim_start(rest));
    } else {
        assert(crate::text::trim_start(s) == s);
        lemma_front_stays(s);
    }
}

proof fn lemma_front_stays(s: Seq<char>)
    requires
        s.len() > 0,
        !is_white(s.first()),
    ensures
        crate::text::trim_end_white(s).len() > 0,
    decreases s.len(),
{
    if is_white(s.last()) {
        assert(s.drop_last().first() == s.first());
        lemma_front_stays(s.drop_last());
    }
}

/// No two commands ask for the same work where automation is enabled, but for the name of
/// the profile; only the two that count tell the count.
pub proof fn law_commands_differ(a: AutomationAction, b: AutomationAction, count: u64, other: u64)
    ensures
        step_of(a, true) == step_of(b, true) ==> {
            &&& a is SyncTarget <==> b is SyncTarget
            &&& a is ExportTarget <==> b is ExportTarget
            &&& a is ProfileReady <==> b is ProfileReady
            &&& a is Profiles <==> b is Profiles
            &&& a is SelectProfile <==> b is SelectProfile
            &&& a is Status <==> b is Status
            &&& a is Check <==> b is Check
            &&& a is Cleanup <==> b is Cleanup
        },
        !(a is Check || a is Cleanup) ==> report_of(step_of(a, true), count) == report_of(
            step_of(a, true),
            other,
        ),
        a is Check ==> report_of(step_of(a, true), count) == Some(
            "added "@ + decimal(count as nat) + " new packages to target"@,
        ),
        a is Cleanup ==> report_of(step_of(a, true), count) == Some(
            "removed "@ + decimal(count as nat) + " stale entries from target"@,
        ),
        report_of(step_of(a, true), count) is None <==> (a is Profiles || a is Status),
        a is SyncTarget ==> step_of(a, true) is ImportTargets,
        a is ExportTarget ==> step_of(a, true) is ExportTargets,
        a is ProfileReady ==> step_of(a, true) is CheckSelection,
        a is Profiles ==> step_of(a, true) is PrintProfiles,
        a is Status ==> step_of(a, true) is PrintStatus,
        a is Check ==> step_of(a, true) is AddPackages,
        a is Cleanup ==> step_of(a, true) is RemovePackages,
{
}

} // verus!
