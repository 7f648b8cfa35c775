//! What the engine rules refuse, and the words they refuse it with.
use crate::text::{both, decimal, number_text, texts};
use vstd::prelude::*;

verus! {

/// Why a request is refused. `S` is the text that an error carries.
#[derive(Debug, PartialEq, Eq)]
pub enum Refusal<S> {
    /// The config is no object.
    RootNotObject,
    /// The config has another schema version.
    UnsupportedVersion,
    /// The profiles are no object.
    ProfilesNotObject,
    /// The config has no profile.
    ProfilesEmpty,
    /// A profile has a name that is not allowed.
    InvalidProfileName { name: S },
    /// A profile is no object.
    ProfileNotObject { name: S },
    /// A profile names no keybox.
    NoKeybox { name: S },
    /// A profile's keybox is no XML file name.
    InvalidKeybox { name: S },
    /// A profile's apps are no array.
    AppsNotArray { name: S },
    /// A profile's `autoIncludeNewApps` is no boolean.
    AutoIncludeNotBoolean { name: S },
    /// A profile has an unknown mode.
    InvalidMode { name: S },
    /// A profile's patch level is no object.
    PatchLevelNotObject { name: S },
    /// A patch level is no text.
    PatchFieldNotText { name: S, field: S },
    /// A patch level has a value that is not allowed.
    InvalidPatchField { name: S, field: S, value: S },
    /// More than one profile takes new apps.
    SeveralAutoInclude,
    /// A profile that does not take new apps has none.
    NoApps { name: S },
    /// An app entry is no text.
    AppNotText { name: S },
    /// An app entry is not allowed.
    InvalidApp { name: S, app: S },
    /// Two profiles have the same app entry.
    AppClaimed { owner: S, name: S, app: S },
    /// Two profiles have apps of one UID.
    UidClaimed { uid: u32, owner: S, name: S },
    /// Apps that another profile has, separated by commas.
    AppsAssigned { apps: S },
    /// The selected profile is not in the config.
    SelectedMissing,
    /// The selected profile is no object.
    SelectedNotObject,
    /// The profile to change is no object.
    ChangedNotObject,
    /// The selected profile's patch level is no object.
    SelectedPatchNotObject,
    /// The selected profile names no keybox.
    SelectedNoKeybox,
    /// There are several profiles, and none is configured.
    NoProfileSelected,
    /// The configured profile is not in the config.
    ConfiguredProfileMissing { name: S },
    /// The chosen profile is not in the config.
    UnknownProfile { name: S },
    /// A patch level value that is not allowed.
    InvalidPatchValue { value: S },
    /// There is no config file.
    ConfigMissing { path: S },
    /// A file could not be read.
    Unreadable { path: S },
    /// The config file is no JSON document.
    InvalidConfig { path: S },
    /// A file could not be read, and these words tell why.
    FileFailed { path: S, words: S },
    /// The addon's own settings could not be loaded, and these words tell why.
    SettingsFailed { words: S },
}

/// Why a request is refused.
pub type EngineError = Refusal<String>;

impl View for Refusal<String> {
    type V = Refusal<Seq<char>>;

    open spec fn view(&self) -> Refusal<Seq<char>> {
        match *self {
            Refusal::RootNotObject => Refusal::RootNotObject,
            Refusal::UnsupportedVersion => Refusal::UnsupportedVersion,
            Refusal::ProfilesNotObject => Refusal::ProfilesNotObject,
            Refusal::ProfilesEmpty => Refusal::ProfilesEmpty,
            Refusal::InvalidProfileName { name } => Refusal::InvalidProfileName { name: name@ },
            Refusal::ProfileNotObject { name } => Refusal::ProfileNotObject { name: name@ },
            Refusal::NoKeybox { name } => Refusal::NoKeybox { name: name@ },
            Refusal::InvalidKeybox { name } => Refusal::InvalidKeybox { name: name@ },
            Refusal::AppsNotArray { name } => Refusal::AppsNotArray { name: name@ },
            Refusal::AutoIncludeNotBoolean { name } => {
                Refusal::AutoIncludeNotBoolean { name: name@ }
            },
            Refusal::InvalidMode { name } => Refusal::InvalidMode { name: name@ },
            Refusal::PatchLevelNotObject { name } => Refusal::PatchLevelNotObject { name: name@ },
            Refusal::PatchFieldNotText { name, field } => {
                Refusal::PatchFieldNotText { name: name@, field: field@ }
            },
            Refusal::InvalidPatchField { name, field, value } => {
                Refusal::InvalidPatchField { name: name@, field: field@, value: value@ }
            },
            Refusal::SeveralAutoInclude => Refusal::SeveralAutoInclude,
            Refusal::NoApps { name } => Refusal::NoApps { name: name@ },
            Refusal::AppNotText { name } => Refusal::AppNotText { name: name@ },
            Refusal::InvalidApp { name, app } => Refusal::InvalidApp { name: name@, app: app@ },
            Refusal::AppClaimed { owner, name, app } => {
                Refusal::AppClaimed { owner: owner@, name: name@, app: app@ }
            },
            Refusal::UidClaimed { uid, owner, name } => {
                Refusal::UidClaimed { uid, owner: owner@, name: name@ }
            },
            Refusal::AppsAssigned { apps } => Refusal::AppsAssigned { apps: apps@ },
            Refusal::SelectedMissing => Refusal::SelectedMissing,
            Refusal::SelectedNotObject => Refusal::SelectedNotObject,
            Refusal::ChangedNotObject => Refusal::ChangedNotObject,
            Refusal::SelectedPatchNotObject => Refusal::SelectedPatchNotObject,
            Refusal::SelectedNoKeybox => Refusal::SelectedNoKeybox,
            Refusal::NoProfileSelected => Refusal::NoProfileSelected,
            Refusal::ConfiguredProfileMissing { name } => {
                Refusal::ConfiguredProfileMissing { name: name@ }
            },
            Refusal::UnknownProfile { name } => Refusal::UnknownProfile { name: name@ },
            Refusal::InvalidPatchValue { value } => Refusal::InvalidPatchValue { value: value@ },
            Refusal::ConfigMissing { path } => Refusal::ConfigMissing { path: path@ },
            Refusal::Unreadable { path } => Refusal::Unreadable { path: path@ },
            Refusal::InvalidConfig { path } => Refusal::InvalidConfig { path: path@ },
            Refusal::FileFailed { path, words } => {
                Refusal::FileFailed { path: path@, words: words@ }
            },
            Refusal::SettingsFailed { words } => Refusal::SettingsFailed { words: words@ },
        }
    }
}

/// Words about a profile.
pub open spec fn of_profile(name: Seq<char>, rest: Seq<char>) -> Seq<char> {
    "TEESimulator profile "@ + name + rest
}

fn profile_text(name: &str, rest: &str) -> (r: String)
    ensures
        r@ == of_profile(name@, rest@),
{
    both(both("TEESimulator profile ", name).as_str(), rest)
}

/// A text, a word between, and another text.
fn linked(a: String, word: &str, b: &str) -> (r: String)
    ensures
        r@ == a@ + word@ + b@,
{
    both(both(a.as_str(), word).as_str(), b)
}

impl Refusal<Seq<char>> {
    /// The words of the refusal.
    pub open spec fn words(self) -> Seq<char> {
        match self {
            Refusal::RootNotObject => "TEESimulator config root must be an object"@,
            Refusal::UnsupportedVersion => {
                "unsupported TEESimulator config schema (expected version 1)"@
            },
            Refusal::ProfilesNotObject => "TEESimulator profiles must be an object"@,
            Refusal::ProfilesEmpty => "TEESimulator profiles must not be empty"@,
            Refusal::InvalidProfileName { name } => {
                "TEESimulator profile name is invalid: "@ + name
            },
            Refusal::ProfileNotObject { name } => of_profile(name, " must be an object"@),
            Refusal::NoKeybox { name } => of_profile(name, " has no keybox"@),
            Refusal::InvalidKeybox { name } => of_profile(name, " keybox must be an XML filename"@),
            Refusal::AppsNotArray { name } => of_profile(name, " apps must be an array"@),
            Refusal::AutoIncludeNotBoolean { name } => {
                of_profile(name, " autoIncludeNewApps must be a boolean"@)
            },
            Refusal::InvalidMode { name } => of_profile(name, " mode must be patch or generation"@),
            Refusal::PatchLevelNotObject { name } => {
                of_profile(name, " patchLevel must be an object"@)
            },
            Refusal::PatchFieldNotText { name, field } => {
                of_profile(name, " patchLevel."@) + field + " must be a string"@
            },
            Refusal::InvalidPatchField { name, field, value } => {
                of_profile(name, " has invalid patchLevel."@) + field + ": "@ + value
            },
            Refusal::SeveralAutoInclude => {
                "only one TEESimulator profile may auto-include new apps"@
            },
            Refusal::NoApps { name } => of_profile(name, " has no apps"@),
            Refusal::AppNotText { name } => of_profile(name, " apps must contain strings"@),
            Refusal::InvalidApp { name, app } => {
                of_profile(name, " has invalid app entry: "@) + app
            },
            Refusal::AppClaimed { owner, name, app } => {
                "TEESimulator app entry appears in profiles "@ + owner + " and "@ + name + ": "@
                    + app
            },
            Refusal::UidClaimed { uid, owner, name } => {
                "TEESimulator UID "@ + decimal(uid as nat) + " is claimed by profiles "@ + owner
                    + " and "@ + name
            },
            Refusal::AppsAssigned { apps } => {
                "apps already assigned to another TEESimulator profile: "@ + apps
            },
            Refusal::SelectedMissing => "selected TEESimulator profile does not exist"@,
            Refusal::SelectedNotObject => "selected TEESimulator profile must be an object"@,
            Refusal::ChangedNotObject => "TEESimulator profile must be an object"@,
            Refusal::SelectedPatchNotObject => "TEESimulator profile patchLevel must be an object"@,
            Refusal::SelectedNoKeybox => "TEESimulator selected profile has no keybox"@,
            Refusal::NoProfileSelected => {
                "TEESimulator has multiple profiles; select one in the addon WebUI or run: ta-enhanced automation select-profile <name>"@
            },
            Refusal::ConfiguredProfileMissing { name } => {
                "configured TEESimulator profile does not exist: "@ + name
            },
            Refusal::UnknownProfile { name } => "TEESimulator profile does not exist: "@ + name,
            Refusal::InvalidPatchValue { value } => {
                "invalid TEESimulator patch level value: "@ + value
            },
            Refusal::ConfigMissing { path } => "TEESimulator config does not exist at "@ + path,
            Refusal::Unreadable { path } => "failed to read "@ + path,
            Refusal::InvalidConfig { path } => "invalid TEESimulator config at "@ + path,
            Refusal::FileFailed { words, .. } => words,
            Refusal::SettingsFailed { words } => words,
        }
    }
}

impl Refusal<String> {
    /// The words of the refusal.
    pub fn message(&self) -> (r: String)
        ensures
            r@ == self@.words(),
    {
        match self {
            Refusal::RootNotObject => "TEESimulator config root must be an object".to_owned(),
            Refusal::UnsupportedVersion => {
                "unsupported TEESimulator config schema (expected version 1)".to_owned()
            },
            Refusal::ProfilesNotObject => "TEESimulator profiles must be an object".to_owned(),
            Refusal::ProfilesEmpty => "TEESimulator profiles must not be empty".to_owned(),
            Refusal::InvalidProfileName { name } => {
                both("TEESimulator profile name is invalid: ", name.as_str())
            },
            Refusal::ProfileNotObject { name } => profile_text(name.as_str(), " must be an object"),
            Refusal::NoKeybox { name } => profile_text(name.as_str(), " has no keybox"),
            Refusal::InvalidKeybox { name } => {
                profile_text(name.as_str(), " keybox must be an XML filename")
            },
            Refusal::AppsNotArray { name } => profile_text(name.as_str(), " apps must be an array"),
            Refusal::AutoIncludeNotBoolean { name } => {
                profile_text(name.as_str(), " autoIncludeNewApps must be a boolean")
            },
            Refusal::InvalidMode { name } => {
                profile_text(name.as_str(), " mode must be patch or generation")
            },
            Refusal::PatchLevelNotObject { name } => {
                profile_text(name.as_str(), " patchLevel must be an object")
            },
            Refusal::PatchFieldNotText { name, field } => {
                let level: String = profile_text(name.as_str(), " patchLevel.");
                linked(level, field.as_str(), " must be a string")
            },
            Refusal::InvalidPatchField { name, field, value } => {
                let field: String = both(
                    profile_text(name.as_str(), " has invalid patchLevel.").as_str(),
                    field.as_str(),
                );
                linked(field, ": ", value.as_str())
            },
            Refusal::SeveralAutoInclude => {
                "only one TEESimulator profile may auto-include new apps".to_owned()
            },
            Refusal::NoApps { name } => profile_text(name.as_str(), " has no apps"),
            Refusal::AppNotText { name } => {
                profile_text(name.as_str(), " apps must contain strings")
            },
            Refusal::InvalidApp { name, app } => {
                both(profile_text(name.as_str(), " has invalid app entry: ").as_str(), app.as_str())
            },
            Refusal::AppClaimed { owner, name, app } => {
                let owner: String = both(
                    "TEESimulator app entry appears in profiles ",
                    owner.as_str(),
                );
                linked(linked(owner, " and ", name.as_str()), ": ", app.as_str())
            },
            Refusal::UidClaimed { uid, owner, name } => {
                let uid: String = both("TEESimulator UID ", number_text(*uid as u64).as_str());
                let owner: String = linked(uid, " is claimed by profiles ", owner.as_str());
                linked(owner, " and ", name.as_str())
            },
            Refusal::AppsAssigned { apps } => {
                both("apps already assigned to another TEESimulator profile: ", apps.as_str())
            },
            Refusal::SelectedMissing => "selected TEESimulator profile does not exist".to_owned(),
            Refusal::SelectedNotObject => {
                "selected TEESimulator profile must be an object".to_owned()
            },
            Refusal::ChangedNotObject => "TEESimulator profile must be an object".to_owned(),
            Refusal::SelectedPatchNotObject => {
                "TEESimulator profile patchLevel must be an object".to_owned()
            },
            Refusal::SelectedNoKeybox => "TEESimulator selected profile has no keybox".to_owned(),
            Refusal::NoProfileSelected => {
                "TEESimulator has multiple profiles; select one in the addon WebUI or run: ta-enhanced automation select-profile <name>".to_owned()
            },
            Refusal::ConfiguredProfileMissing { name } => {
                both("configured TEESimulator profile does not exist: ", name.as_str())
            },
            Refusal::UnknownProfile { name } => {
                both("TEESimulator profile does not exist: ", name.as_str())
            },
            Refusal::InvalidPatchValue { value } => {
                both("invalid TEESimulator patch level value: ", value.as_str())
            },
            Refusal::ConfigMissing { path } => {
                both("TEESimulator config does not exist at ", path.as_str())
            },
            Refusal::Unreadable { path } => both("failed to read ", path.as_str()),
            Refusal::InvalidConfig { path } => {
                both("invalid TEESimulator config at ", path.as_str())
            },
            Refusal::FileFailed { words, .. } => words.clone(),
            Refusal::SettingsFailed { words } => words.clone(),
        }
    }
}

/// What came of a request that answers nothing.
pub open spec fn done(r: Result<(), EngineError>) -> Result<(), Refusal<Seq<char>>> {
    match r {
        Ok(()) => Ok(()),
        Err(e) => Err(e@),
    }
}

/// What came of a request for a text.
pub open spec fn text_answer(r: Result<String, EngineError>) -> Result<
    Seq<char>,
    Refusal<Seq<char>>,
> {
    match r {
        Ok(text) => Ok(text@),
        Err(e) => Err(e@),
    }
}

/// What came of a request for a list of texts.
pub open spec fn texts_answer(r: Result<Vec<String>, EngineError>) -> Result<
    Seq<Seq<char>>,
    Refusal<Seq<char>>,
> {
    match r {
        Ok(list) => Ok(texts(list@)),
        Err(e) => Err(e@),
    }
}

} // verus!
