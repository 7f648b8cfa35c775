//! Laws of the refusals: their words hold what they tell.
use crate::error::Refusal;
use crate::keybox::error::KeyboxFailure;
use crate::text::decimal;
use vstd::prelude::*;

verus! {

/// `part` stands in `words` behind `before` characters.
pub open spec fn stands_at(words: Seq<char>, before: int, part: Seq<char>) -> bool {
    0 <= before && before + part.len() <= words.len() && words.subrange(
        before,
        before + part.len(),
    ) == part
}

/// `part` stands in `words`.
pub open spec fn holds(words: Seq<char>, part: Seq<char>) -> bool {
    exists|before: int| #[trigger] stands_at(words, before, part)
}

proof fn lemma_holds(before: Seq<char>, part: Seq<char>, behind: Seq<char>)
    ensures
        holds(before + part + behind, part),
        holds(before + part, part),
{
    let n = before.len() as int;
    assert((before + part + behind).subrange(n, n + part.len()) == part);
    assert(stands_at(before + part + behind, n, part));
    assert((before + part).subrange(n, n + part.len()) == part);
    assert(stands_at(before + part, n, part));
}

/// The words of a refusal about one profile hold its name, and what is wrong with it.
pub proof fn law_words_about_a_profile(
    name: Seq<char>,
    field: Seq<char>,
    value: Seq<char>,
    app: Seq<char>,
)
    ensures
        holds((Refusal::InvalidProfileName { name }).words(), name),
        holds((Refusal::ProfileNotObject { name }).words(), name),
        holds((Refusal::NoKeybox { name }).words(), name),
        holds((Refusal::InvalidKeybox { name }).words(), name),
        holds((Refusal::AppsNotArray { name }).words(), name),
        holds((Refusal::AutoIncludeNotBoolean { name }).words(), name),
        holds((Refusal::InvalidMode { name }).words(), name),
        holds((Refusal::PatchLevelNotObject { name }).words(), name),
        holds((Refusal::NoApps { name }).words(), name),
        holds((Refusal::AppNotText { name }).words(), name),
        holds((Refusal::PatchFieldNotText { name, field }).words(), name),
        holds((Refusal::PatchFieldNotText { name, field }).words(), field),
        holds((Refusal::InvalidPatchField { name, field, value }).words(), name),
        holds((Refusal::InvalidPatchField { name, field, value }).words(), field),
        holds((Refusal::InvalidPatchField { name, field, value }).words(), value),
        holds((Refusal::InvalidApp { name, app }).words(), name),
        holds((Refusal::InvalidApp { name, app }).words(), app),
        holds((Refusal::ConfiguredProfileMissing { name }).words(), name),
        holds((Refusal::UnknownProfile { name }).words(), name),
{
    let head = "TEESimulator profile "@;
    lemma_holds("TEESimulator profile name is invalid: "@, name, seq![]);
    lemma_holds("configured TEESimulator profile does not exist: "@, name, seq![]);
    lemma_holds("TEESimulator profile does not exist: "@, name, seq![]);
    lemma_holds(head, name, " must be an object"@);
    lemma_holds(head, name, " has no keybox"@);
    lemma_holds(head, name, " keybox must be an XML filename"@);
    lemma_holds(head, name, " apps must be an array"@);
    lemma_holds(head, name, " autoIncludeNewApps must be a boolean"@);
    lemma_holds(head, name, " mode must be patch or generation"@);
    lemma_holds(head, name, " patchLevel must be an object"@);
    lemma_holds(head, name, " has no apps"@);
    lemma_holds(head, name, " apps must contain strings"@);
    let a = (Refusal::PatchFieldNotText { name, field }).words();
    let rest = " patchLevel."@ + field + " must be a string"@;
    lemma_holds(head, name, rest);
    assert(a == head + name + rest);
    lemma_holds(head + name + " patchLevel."@, field, " must be a string"@);
    let b = (Refusal::InvalidPatchField { name, field, value }).words();
    let rest = " has invalid patchLevel."@ + field + ": "@ + value;
    lemma_holds(head, name, rest);
    assert(b == head + name + rest);
    lemma_holds(head + name + " has invalid patchLevel."@, field, ": "@ + value);
    assert(b == head + name + " has invalid patchLevel."@ + field + (": "@ + value));
    lemma_holds(head + name + " has invalid patchLevel."@ + field + ": "@, value, seq![]);
    let c = (Refusal::InvalidApp { name, app }).words();
    let rest = " has invalid app entry: "@ + app;
    lemma_holds(head, name, rest);
    assert(c == head + name + rest);
    lemma_holds(head + name + " has invalid app entry: "@, app, seq![]);
}

/// The words of a refusal about two profiles hold both names and what they share.
pub proof fn law_words_about_two_profiles(
    owner: Seq<char>,
    name: Seq<char>,
    app: Seq<char>,
    uid: u32,
    apps: Seq<char>,
)
    ensures
        holds((Refusal::AppClaimed { owner, name, app }).words(), owner),
        holds((Refusal::AppClaimed { owner, name, app }).words(), name),
        holds((Refusal::AppClaimed { owner, name, app }).words(), app),
        holds((Refusal::UidClaimed { uid, owner, name }).words(), decimal(uid as nat)),
        holds((Refusal::UidClaimed { uid, owner, name }).words(), owner),
        holds((Refusal::UidClaimed { uid, owner, name }).words(), name),
        holds((Refusal::AppsAssigned { apps }).words(), apps),
{
    let head = "TEESimulator app entry appears in profiles "@;
    let a = (Refusal::AppClaimed { owner, name, app }).words();
    let rest = " and "@ + name + ": "@ + app;
    lemma_holds(head, owner, rest);
    assert(a == head + owner + rest);
    lemma_holds(head + owner + " and "@, name, ": "@ + app);
    assert(a == head + owner + " and "@ + name + (": "@ + app));
    lemma_holds(head + owner + " and "@ + name + ": "@, app, seq![]);
    let head = "TEESimulator UID "@;
    let number = decimal(uid as nat);
    let b = (Refusal::UidClaimed { uid, owner, name }).words();
    let rest = " is claimed by profiles "@ + owner + " and "@ + name;
    lemma_holds(head, number, rest);
    assert(b == head + number + rest);
    lemma_holds(head + number + " is claimed by profiles "@, owner, " and "@ + name);
    assert(b == head + number + " is claimed by profiles "@ + owner + (" and "@ + name));
    lemma_holds(head + number + " is claimed by profiles "@ + owner + " and "@, name, seq![]);
    lemma_holds("apps already assigned to another TEESimulator profile: "@, apps, seq![]);
}

/// The words of a refusal about a file or a value hold it, and a failure that is handed on
/// keeps its own words.
pub proof fn law_words_about_files_and_values(
    path: Seq<char>,
    value: Seq<char>,
    words: Seq<char>,
)
    ensures
        holds((Refusal::InvalidPatchValue { value }).words(), value),
        holds((Refusal::ConfigMissing { path }).words(), path),
        holds((Refusal::Unreadable { path }).words(), path),
        holds((Refusal::InvalidConfig { path }).words(), path),
        (Refusal::FileFailed { path, words }).words() == words,
        (Refusal::SettingsFailed { words }).words() == words,
        holds((KeyboxFailure::UnknownSource { name: value }).words(), value),
        holds((KeyboxFailure::NothingToBackUp { path }).words(), path),
        holds((KeyboxFailure::CustomMissing { path }).words(), path),
        holds((KeyboxFailure::CustomUnparsable { path }).words(), path),
        holds((KeyboxFailure::CustomRejected { summary: value }).words(), value),
        holds((KeyboxFailure::ValidationFailed { path }).words(), path),
{
    lemma_holds("invalid TEESimulator patch level value: "@, value, seq![]);
    lemma_holds("TEESimulator config does not exist at "@, path, seq![]);
    lemma_holds("failed to read "@, path, seq![]);
    lemma_holds("invalid TEESimulator config at "@, path, seq![]);
    lemma_holds("unknown keybox source: "@, value, seq![]);
    lemma_holds("no keybox to backup at "@, path, seq![]);
    lemma_holds("custom keybox not found: "@, path, seq![]);
    lemma_holds("validating "@, path, seq![]);
    lemma_holds("custom keybox failed validation: "@, value, seq![]);
    lemma_holds("keybox validation failed: "@, path, seq![]);
}

/// The words of the engine and of the generation are handed on as they are.
pub proof fn law_words_are_handed_on(
    refusal: Refusal<Seq<char>>,
    failure: crate::keybox::generate::GenerateError,
)
    ensures
        (KeyboxFailure::Engine { refusal }).words() == refusal.words(),
        (KeyboxFailure::<Seq<char>>::Generate { failure }).words() == failure.words(),
{
}

} // verus!
