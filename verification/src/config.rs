//! The TEESimulator config: what makes it valid.
use crate::error::{EngineError, Refusal};
use crate::json::{entries_view, items_view, Json, JsonNumber, JsonView};
use crate::packages::{effective_uid, is_app_entry, uid_of_entry, valid_app_entry, PackageUids};
use crate::patch::{is_patch_value, valid_patch_value};
use crate::text::{alphanumeric, chars_of, ends_with, is_alphanumeric, same};
use vstd::prelude::*;

verus! {

/// A letter or digit, `-` or `_`.
pub open spec fn is_name_char(c: char) -> bool {
    is_alphanumeric(c) || c == '-' || c == '_'
}

/// 1 to 32 letters, digits, dashes and underscores.
pub open spec fn is_profile_name(name: Seq<char>) -> bool {
    0 < name.len() <= 32 && forall|i: int| 0 <= i < name.len() ==> is_name_char(#[trigger] name[i])
}

/// A letter or digit, `.`, `_` or `-`.
pub open spec fn is_file_char(c: char) -> bool {
    is_alphanumeric(c) || c == '.' || c == '_' || c == '-'
}

/// The name of an XML file, of letters, digits, dots, underscores and dashes.
pub open spec fn is_keybox_name(value: Seq<char>) -> bool {
    &&& ".xml"@.is_suffix_of(value)
    &&& value.len() > 4
    &&& forall|i: int| 0 <= i < value.len() ==> is_file_char(#[trigger] value[i])
}

fn valid_profile_name(name: &str) -> (r: bool)
    ensures
        r == is_profile_name(name@),
{
    let chars: Vec<char> = chars_of(name);
    if chars.len() == 0 || chars.len() > 32 {
        return false;
    }
    let mut i: usize = 0;
    while i < chars.len()
        invariant
            i <= chars.len(),
            chars@ == name@,
            forall|k: int| 0 <= k < i ==> is_name_char(#[trigger] name@[k]),
        decreases chars.len() - i,
    {
        let c: char = chars[i];
        if !(alphanumeric(c) || c == '-' || c == '_') {
            assert(!is_name_char(name@[i as int]));
            return false;
        }
        i += 1;
    }
    true
}

/// Whether `value` may name the keybox of a profile.
pub fn valid_keybox_name(value: &str) -> (r: bool)
    ensures
        r == is_keybox_name(value@),
{
    if !ends_with(value, ".xml") {
        return false;
    }
    let chars: Vec<char> = chars_of(value);
    let mut i: usize = 0;
    while i < chars.len()
        invariant
            i <= chars.len(),
            chars@ == value@,
            forall|k: int| 0 <= k < i ==> is_file_char(#[trigger] value@[k]),
        decreases chars.len() - i,
    {
        let c: char = chars[i];
        if !(alphanumeric(c) || c == '.' || c == '_' || c == '-') {
            assert(!is_file_char(value@[i as int]));
            return false;
        }
        i += 1;
    }
    chars.len() > 4
}

/// What is wrong, where anything is.
pub type Fault = Option<Refusal<Seq<char>>>;

/// The first of two faults.
pub open spec fn first_of(a: Fault, b: Fault) -> Fault {
    if a is Some {
        a
    } else {
        b
    }
}

/// The profiles of a config.
pub open spec fn profiles_of(config: JsonView) -> Option<Seq<(Seq<char>, JsonView)>> {
    match config.field("profiles"@) {
        Some(profiles) => profiles.entries(),
        None => None,
    }
}

/// The app list of a profile; none where the profile has no list.
pub open spec fn apps_of(profile: JsonView) -> Seq<JsonView> {
    match profile.field("apps"@) {
        Some(JsonView::Array(items)) => items,
        _ => seq![],
    }
}

/// Whether new apps go to this profile.
pub open spec fn takes_new_apps(profile: JsonView) -> bool {
    profile.field("autoIncludeNewApps"@) == Some(JsonView::Bool(true))
}

/// What is wrong with one patch level of a profile.
pub open spec fn patch_field_fault(name: Seq<char>, patch: JsonView, field: Seq<char>) -> Fault {
    match patch.field(field) {
        None => None,
        Some(value) => match value.text() {
            None => Some(Refusal::PatchFieldNotText { name, field }),
            Some(level) => if level.len() > 0 && !is_patch_value(level) {
                Some(Refusal::InvalidPatchField { name, field, value: level })
            } else {
                None
            },
        },
    }
}

/// What is wrong with the patch levels of a profile.
pub open spec fn patch_fault(name: Seq<char>, profile: JsonView) -> Fault {
    match profile.field("patchLevel"@) {
        None => None,
        Some(patch) => if patch.entries() is None {
            Some(Refusal::PatchLevelNotObject { name })
        } else {
            first_of(
                patch_field_fault(name, patch, "system"@),
                first_of(
                    patch_field_fault(name, patch, "vendor"@),
                    patch_field_fault(name, patch, "boot"@),
                ),
            )
        },
    }
}

/// What is wrong with the keybox of a profile.
pub open spec fn keybox_fault(name: Seq<char>, profile: JsonView) -> Fault {
    match profile.field("keybox"@) {
        Some(JsonView::Text(keybox)) => if is_keybox_name(keybox) {
            None
        } else {
            Some(Refusal::InvalidKeybox { name })
        },
        _ => Some(Refusal::NoKeybox { name }),
    }
}

/// What is wrong with the form of a profile, whatever else is in the config.
pub open spec fn form_fault(name: Seq<char>, profile: JsonView) -> Fault {
    if !is_profile_name(name) {
        Some(Refusal::InvalidProfileName { name })
    } else if profile.entries() is None {
        Some(Refusal::ProfileNotObject { name })
    } else if keybox_fault(name, profile) is Some {
        keybox_fault(name, profile)
    } else if profile.field("apps"@) matches Some(apps) && apps.items() is None {
        Some(Refusal::AppsNotArray { name })
    } else if profile.field("autoIncludeNewApps"@) matches Some(value) && value !is Bool {
        Some(Refusal::AutoIncludeNotBoolean { name })
    } else if profile.field("mode"@) matches Some(mode) && mode != JsonView::Text("patch"@) && mode
        != JsonView::Text("generation"@) {
        Some(Refusal::InvalidMode { name })
    } else {
        patch_fault(name, profile)
    }
}

/// Whether new apps go to one of the first `n` profiles.
pub open spec fn new_apps_taken(profiles: Seq<(Seq<char>, JsonView)>, n: int) -> bool {
    exists|k: int| 0 <= k < n && takes_new_apps(#[trigger] profiles[k].1)
}

/// What is wrong with the share of apps that profile `i` takes.
pub open spec fn share_fault(profiles: Seq<(Seq<char>, JsonView)>, i: int) -> Fault {
    let (name, profile) = profiles[i];
    if takes_new_apps(profile) {
        if new_apps_taken(profiles, i) {
            Some(Refusal::SeveralAutoInclude)
        } else {
            None
        }
    } else if apps_of(profile).len() == 0 {
        Some(Refusal::NoApps { name })
    } else {
        None
    }
}

/// The name of the first of the first `n` profiles that has `app` in its list.
pub open spec fn app_owner(
    profiles: Seq<(Seq<char>, JsonView)>,
    n: int,
    app: Seq<char>,
) -> Option<Seq<char>>
    decreases n,
{
    if n <= 0 {
        None
    } else if app_owner(profiles, n - 1, app) is Some {
        app_owner(profiles, n - 1, app)
    } else if apps_of(profiles[n - 1].1).contains(JsonView::Text(app)) {
        Some(profiles[n - 1].0)
    } else {
        None
    }
}

/// What is wrong with one app entry of profile `i`.
pub open spec fn app_fault(profiles: Seq<(Seq<char>, JsonView)>, i: int, entry: JsonView) -> Fault {
    let name = profiles[i].0;
    match entry.text() {
        None => Some(Refusal::AppNotText { name }),
        Some(app) => if !is_app_entry(app) {
            Some(Refusal::InvalidApp { name, app })
        } else {
            match app_owner(profiles, i, app) {
                Some(owner) => if owner != name {
                    Some(Refusal::AppClaimed { owner, name, app })
                } else {
                    None
                },
                None => None,
            }
        },
    }
}

/// What is wrong with the first wrong app entry of profile `i`, from entry `j` on.
pub open spec fn apps_fault(profiles: Seq<(Seq<char>, JsonView)>, i: int, j: int) -> Fault
    decreases apps_of(profiles[i].1).len() - j,
{
    let apps = apps_of(profiles[i].1);
    if j < 0 || j >= apps.len() {
        None
    } else {
        first_of(app_fault(profiles, i, apps[j]), apps_fault(profiles, i, j + 1))
    }
}

/// What is wrong with profile `i`, given those before it.
pub open spec fn profile_fault(profiles: Seq<(Seq<char>, JsonView)>, i: int) -> Fault {
    first_of(
        form_fault(profiles[i].0, profiles[i].1),
        first_of(share_fault(profiles, i), apps_fault(profiles, i, 0)),
    )
}

/// What is wrong with the first wrong profile, from profile `i` on.
pub open spec fn profiles_fault(profiles: Seq<(Seq<char>, JsonView)>, i: int) -> Fault
    decreases profiles.len() - i,
{
    if i < 0 || i >= profiles.len() {
        None
    } else {
        first_of(profile_fault(profiles, i), profiles_fault(profiles, i + 1))
    }
}

/// The UIDs that the entries of an app list stand for.
pub open spec fn app_uids(apps: Seq<JsonView>, packages: Map<Seq<char>, u32>) -> Seq<u32>
    decreases apps.len(),
{
    if apps.len() == 0 {
        seq![]
    } else {
        let rest = app_uids(apps.drop_last(), packages);
        match apps.last() {
            JsonView::Text(app) => match uid_of_entry(app, packages) {
                Some(uid) => rest.push(uid),
                None => rest,
            },
            _ => rest,
        }
    }
}

/// The name of the first of the first `n` profiles that has an app of this UID.
pub open spec fn uid_owner(
    profiles: Seq<(Seq<char>, JsonView)>,
    n: int,
    uid: u32,
    packages: Map<Seq<char>, u32>,
) -> Option<Seq<char>>
    decreases n,
{
    if n <= 0 {
        None
    } else if uid_owner(profiles, n - 1, uid, packages) is Some {
        uid_owner(profiles, n - 1, uid, packages)
    } else if app_uids(apps_of(profiles[n - 1].1), packages).contains(uid) {
        Some(profiles[n - 1].0)
    } else {
        None
    }
}

/// The first UID of profile `i`, from place `j` on, that another profile claims too.
pub open spec fn uids_fault(
    profiles: Seq<(Seq<char>, JsonView)>,
    i: int,
    j: int,
    packages: Map<Seq<char>, u32>,
) -> Fault
    decreases app_uids(apps_of(profiles[i].1), packages).len() - j,
{
    let name = profiles[i].0;
    let uids = app_uids(apps_of(profiles[i].1), packages);
    if j < 0 || j >= uids.len() {
        None
    } else {
        match uid_owner(profiles, i, uids[j], packages) {
            Some(owner) => if owner != name {
                Some(Refusal::UidClaimed { uid: uids[j], owner, name })
            } else {
                uids_fault(profiles, i, j + 1, packages)
            },
            None => uids_fault(profiles, i, j + 1, packages),
        }
    }
}

/// The first UID that two profiles claim, from profile `i` on.
pub open spec fn ownership_fault(
    profiles: Seq<(Seq<char>, JsonView)>,
    i: int,
    packages: Map<Seq<char>, u32>,
) -> Fault
    decreases profiles.len() - i,
{
    if i < 0 || i >= profiles.len() {
        None
    } else {
        first_of(
            uids_fault(profiles, i, 0, packages),
            ownership_fault(profiles, i + 1, packages),
        )
    }
}

/// What is wrong with a config.
pub open spec fn config_fault(config: JsonView, packages: Map<Seq<char>, u32>) -> Fault {
    if config.entries() is None {
        Some(Refusal::RootNotObject)
    } else if config.field("version"@) != Some(JsonView::Number(JsonNumber::Unsigned(1))) {
        Some(Refusal::UnsupportedVersion)
    } else {
        match profiles_of(config) {
            None => Some(Refusal::ProfilesNotObject),
            Some(profiles) => if profiles.len() == 0 {
                Some(Refusal::ProfilesEmpty)
            } else {
                first_of(profiles_fault(profiles, 0), ownership_fault(profiles, 0, packages))
            },
        }
    }
}

/// The fault that an error tells of.
pub open spec fn fault_view(error: Option<EngineError>) -> Fault {
    match error {
        Some(e) => Some(e@),
        None => None,
    }
}

/// The profiles of a config.
pub fn profiles(config: &Json) -> (r: Option<&Vec<(String, Json)>>)
    ensures
        match r {
            Some(profiles) => profiles_of(config@) == Some(entries_view(profiles@)),
            None => profiles_of(config@) is None,
        },
{
    match config.get("profiles") {
        Some(profiles) => profiles.as_object(),
        None => None,
    }
}

/// The app list of a profile.
pub fn app_list(profile: &Json) -> (r: Option<&Vec<Json>>)
    ensures
        apps_of(profile@) == match r {
            Some(items) => items_view(items@),
            None => seq![],
        },
{
    match profile.get("apps") {
        Some(apps) => apps.as_array(),
        None => None,
    }
}

/// Whether new apps go to this profile.
fn auto_includes(profile: &Json) -> (r: bool)
    ensures
        r == takes_new_apps(profile@),
{
    match profile.get("autoIncludeNewApps") {
        Some(Json::Bool(b)) => *b,
        _ => false,
    }
}

fn patch_field_error(name: &String, patch: &Json, field: &str) -> (r: Option<EngineError>)
    ensures
        fault_view(r) == patch_field_fault(name@, patch@, field@),
{
    match patch.get(field) {
        None => None,
        Some(value) => match value.as_str() {
            None => Some(
                Refusal::PatchFieldNotText { name: name.clone(), field: field.to_owned() },
            ),
            Some(level) => if !level.as_str().is_empty() && !valid_patch_value(level.as_str()) {
                Some(
                    Refusal::InvalidPatchField {
                        name: name.clone(),
                        field: field.to_owned(),
                        value: level.clone(),
                    },
                )
            } else {
                None
            },
        },
    }
}

fn patch_error(name: &String, profile: &Json) -> (r: Option<EngineError>)
    ensures
        fault_view(r) == patch_fault(name@, profile@),
{
    match profile.get("patchLevel") {
        None => None,
        Some(patch) => {
            if patch.as_object().is_none() {
                return Some(Refusal::PatchLevelNotObject { name: name.clone() });
            }
            let system: Option<EngineError> = patch_field_error(name, patch, "system");
            if system.is_some() {
                return system;
            }
            let vendor: Option<EngineError> = patch_field_error(name, patch, "vendor");
            if vendor.is_some() {
                return vendor;
            }
            patch_field_error(name, patch, "boot")
        },
    }
}

fn keybox_error(name: &String, profile: &Json) -> (r: Option<EngineError>)
    ensures
        fault_view(r) == keybox_fault(name@, profile@),
{
    match profile.get("keybox") {
        Some(Json::Text(keybox)) => if valid_keybox_name(keybox.as_str()) {
            None
        } else {
            Some(Refusal::InvalidKeybox { name: name.clone() })
        },
        _ => Some(Refusal::NoKeybox { name: name.clone() }),
    }
}

fn form_error(name: &String, profile: &Json) -> (r: Option<EngineError>)
    ensures
        fault_view(r) == form_fault(name@, profile@),
{
    if !valid_profile_name(name.as_str()) {
        return Some(Refusal::InvalidProfileName { name: name.clone() });
    }
    if profile.as_object().is_none() {
        return Some(Refusal::ProfileNotObject { name: name.clone() });
    }
    let keybox: Option<EngineError> = keybox_error(name, profile);
    if keybox.is_some() {
        return keybox;
    }
    match profile.get("apps") {
        Some(apps) => if apps.as_array().is_none() {
            return Some(Refusal::AppsNotArray { name: name.clone() });
        },
        None => {},
    }
    match profile.get("autoIncludeNewApps") {
        Some(Json::Bool(_)) => {},
        Some(_) => {
            return Some(Refusal::AutoIncludeNotBoolean { name: name.clone() });
        },
        None => {},
    }
    match profile.get("mode") {
        Some(Json::Text(mode)) => if !same(mode.as_str(), "patch") && !same(
            mode.as_str(),
            "generation",
        ) {
            return Some(Refusal::InvalidMode { name: name.clone() });
        },
        Some(_) => {
            return Some(Refusal::InvalidMode { name: name.clone() });
        },
        None => {},
    }
    patch_error(name, profile)
}

/// Whether the list has `app`.
pub fn lists_app(apps: &Vec<Json>, app: &String) -> (r: bool)
    ensures
        r == items_view(apps@).contains(JsonView::Text(app@)),
{
    let ghost seen = items_view(apps@);
    let mut i: usize = 0;
    while i < apps.len()
        invariant
            i <= apps.len(),
            seen == items_view(apps@),
            forall|k: int| 0 <= k < i ==> seen[k] != JsonView::Text(app@),
        decreases apps.len() - i,
    {
        match &apps[i] {
            Json::Text(entry) => if *entry == *app {
                assert(seen[i as int] == JsonView::Text(app@));
                return true;
            },
            _ => {},
        }
        i += 1;
    }
    false
}

fn owner_of_app<'a>(profiles: &'a Vec<(String, Json)>, n: usize, app: &String) -> (r: Option<
    &'a String,
>)
    requires
        n <= profiles@.len(),
    ensures
        app_owner(entries_view(profiles@), n as int, app@) == match r {
            Some(owner) => Some(owner@),
            None => None,
        },
{
    let ghost seen = entries_view(profiles@);
    let mut i: usize = 0;
    while i < n
        invariant
            i <= n <= profiles@.len(),
            seen == entries_view(profiles@),
            app_owner(seen, i as int, app@) is None,
        decreases n - i,
    {
        match app_list(&profiles[i].1) {
            Some(apps) => if lists_app(apps, app) {
                proof {
                    lemma_app_owner_stays(seen, i + 1, n as int, app@);
                }
                return Some(&profiles[i].0);
            },
            None => {},
        }
        i += 1;
    }
    None
}

proof fn lemma_app_owner_stays(
    profiles: Seq<(Seq<char>, JsonView)>,
    n: int,
    m: int,
    app: Seq<char>,
)
    requires
        n <= m,
        app_owner(profiles, n, app) is Some,
    ensures
        app_owner(profiles, m, app) == app_owner(profiles, n, app),
    decreases m - n,
{
    if n < m {
        lemma_app_owner_stays(profiles, n, m - 1, app);
    }
}

fn app_error(profiles: &Vec<(String, Json)>, i: usize, entry: &Json) -> (r: Option<EngineError>)
    requires
        i < profiles@.len(),
    ensures
        fault_view(r) == app_fault(entries_view(profiles@), i as int, entry@),
{
    let name: &String = &profiles[i].0;
    match entry.as_str() {
        None => Some(Refusal::AppNotText { name: name.clone() }),
        Some(app) => {
            if !valid_app_entry(app.as_str()) {
                return Some(Refusal::InvalidApp { name: name.clone(), app: app.clone() });
            }
            match owner_of_app(profiles, i, app) {
                Some(owner) => if *owner != *name {
                    Some(
                        Refusal::AppClaimed {
                            owner: owner.clone(),
                            name: name.clone(),
                            app: app.clone(),
                        },
                    )
                } else {
                    None
                },
                None => None,
            }
        },
    }
}

fn apps_error(profiles: &Vec<(String, Json)>, i: usize) -> (r: Option<EngineError>)
    requires
        i < profiles@.len(),
    ensures
        fault_view(r) == apps_fault(entries_view(profiles@), i as int, 0),
{
    let ghost seen = entries_view(profiles@);
    match app_list(&profiles[i].1) {
        None => None,
        Some(apps) => {
            let mut j: usize = 0;
            while j < apps.len()
                invariant
                    j <= apps.len(),
                    i < profiles@.len(),
                    seen == entries_view(profiles@),
                    apps_of(seen[i as int].1) == items_view(apps@),
                    apps_fault(seen, i as int, 0) == apps_fault(seen, i as int, j as int),
                decreases apps.len() - j,
            {
                let error: Option<EngineError> = app_error(profiles, i, &apps[j]);
                if error.is_some() {
                    return error;
                }
                j += 1;
            }
            None
        },
    }
}

/// Whether one of the first `n` profiles takes new apps.
fn some_auto_includes(profiles: &Vec<(String, Json)>, n: usize) -> (r: bool)
    requires
        n <= profiles@.len(),
    ensures
        r == new_apps_taken(entries_view(profiles@), n as int),
{
    let ghost seen = entries_view(profiles@);
    let mut i: usize = 0;
    while i < n
        invariant
            i <= n <= profiles@.len(),
            seen == entries_view(profiles@),
            forall|k: int| 0 <= k < i ==> !takes_new_apps(#[trigger] seen[k].1),
        decreases n - i,
    {
        if auto_includes(&profiles[i].1) {
            assert(takes_new_apps(seen[i as int].1));
            return true;
        }
        i += 1;
    }
    false
}

fn share_error(profiles: &Vec<(String, Json)>, i: usize) -> (r: Option<EngineError>)
    requires
        i < profiles@.len(),
    ensures
        fault_view(r) == share_fault(entries_view(profiles@), i as int),
{
    if auto_includes(&profiles[i].1) {
        if some_auto_includes(profiles, i) {
            Some(Refusal::SeveralAutoInclude)
        } else {
            None
        }
    } else {
        let none: bool = match app_list(&profiles[i].1) {
            Some(apps) => apps.len() == 0,
            None => true,
        };
        if none {
            Some(Refusal::NoApps { name: profiles[i].0.clone() })
        } else {
            None
        }
    }
}

fn profile_error(profiles: &Vec<(String, Json)>, i: usize) -> (r: Option<EngineError>)
    requires
        i < profiles@.len(),
    ensures
        fault_view(r) == profile_fault(entries_view(profiles@), i as int),
{
    let form: Option<EngineError> = form_error(&profiles[i].0, &profiles[i].1);
    if form.is_some() {
        return form;
    }
    let share: Option<EngineError> = share_error(profiles, i);
    if share.is_some() {
        return share;
    }
    apps_error(profiles, i)
}

/// The UIDs that the apps of a profile stand for.
pub fn uids_of_profile(profile: &Json, packages: &PackageUids) -> (r: Vec<u32>)
    ensures
        r@ == app_uids(apps_of(profile@), packages@),
{
    let mut uids: Vec<u32> = Vec::new();
    match app_list(profile) {
        None => {},
        Some(apps) => {
            let ghost seen = items_view(apps@);
            let mut i: usize = 0;
            assert(seen.take(0) == Seq::<JsonView>::empty());
            while i < apps.len()
                invariant
                    i <= apps.len(),
                    seen == items_view(apps@),
                    uids@ == app_uids(seen.take(i as int), packages@),
                decreases apps.len() - i,
            {
                assert(seen.take(i + 1).drop_last() == seen.take(i as int));
                assert(seen.take(i + 1).last() == apps@[i as int]@);
                match &apps[i] {
                    Json::Text(app) => match effective_uid(app.as_str(), packages) {
                        Some(uid) => {
                            uids.push(uid);
                        },
                        None => {},
                    },
                    _ => {},
                }
                i += 1;
            }
            assert(seen.take(i as int) == seen);
        },
    }
    uids
}

/// Whether the list has `uid`.
pub fn lists_uid(uids: &Vec<u32>, uid: u32) -> (r: bool)
    ensures
        r == uids@.contains(uid),
{
    let mut i: usize = 0;
    while i < uids.len()
        invariant
            i <= uids.len(),
            forall|k: int| 0 <= k < i ==> uids@[k] != uid,
        decreases uids.len() - i,
    {
        if uids[i] == uid {
            return true;
        }
        i += 1;
    }
    false
}

proof fn lemma_uid_owner_stays(
    profiles: Seq<(Seq<char>, JsonView)>,
    n: int,
    m: int,
    uid: u32,
    packages: Map<Seq<char>, u32>,
)
    requires
        n <= m,
        uid_owner(profiles, n, uid, packages) is Some,
    ensures
        uid_owner(profiles, m, uid, packages) == uid_owner(profiles, n, uid, packages),
    decreases m - n,
{
    if n < m {
        lemma_uid_owner_stays(profiles, n, m - 1, uid, packages);
    }
}

/// The lists of UIDs of the first profiles.
spec fn uid_lists(
    lists: Seq<Vec<u32>>,
    profiles: Seq<(Seq<char>, JsonView)>,
    packages: Map<Seq<char>, u32>,
) -> bool {
    lists.len() <= profiles.len() && forall|k: int|
        0 <= k < lists.len() ==> (#[trigger] lists[k])@ == app_uids(
            apps_of(profiles[k].1),
            packages,
        )
}

fn owner_of_uid<'a>(
    profiles: &'a Vec<(String, Json)>,
    lists: &Vec<Vec<u32>>,
    uid: u32,
    packages: Ghost<Map<Seq<char>, u32>>,
) -> (r: Option<&'a String>)
    requires
        uid_lists(lists@, entries_view(profiles@), packages@),
    ensures
        uid_owner(entries_view(profiles@), lists@.len() as int, uid, packages@) == match r {
            Some(owner) => Some(owner@),
            None => None,
        },
{
    let ghost seen = entries_view(profiles@);
    let mut i: usize = 0;
    while i < lists.len()
        invariant
            i <= lists.len(),
            seen == entries_view(profiles@),
            uid_lists(lists@, seen, packages@),
            uid_owner(seen, i as int, uid, packages@) is None,
        decreases lists.len() - i,
    {
        if lists_uid(&lists[i], uid) {
            proof {
                lemma_uid_owner_stays(seen, i + 1, lists@.len() as int, uid, packages@);
            }
            return Some(&profiles[i].0);
        }
        i += 1;
    }
    None
}

fn uids_error(
    profiles: &Vec<(String, Json)>,
    lists: &Vec<Vec<u32>>,
    uids: &Vec<u32>,
    packages: Ghost<Map<Seq<char>, u32>>,
) -> (r: Option<EngineError>)
    requires
        lists@.len() < profiles@.len(),
        uid_lists(lists@, entries_view(profiles@), packages@),
        uids@ == app_uids(apps_of(profiles@[lists@.len() as int].1@), packages@),
    ensures
        fault_view(r) == uids_fault(
            entries_view(profiles@),
            lists@.len() as int,
            0,
            packages@,
        ),
{
    let ghost seen = entries_view(profiles@);
    let i: usize = lists.len();
    let name: &String = &profiles[i].0;
    let mut j: usize = 0;
    while j < uids.len()
        invariant
            j <= uids.len(),
            i == lists@.len(),
            i < profiles@.len(),
            *name == profiles@[i as int].0,
            seen == entries_view(profiles@),
            uid_lists(lists@, seen, packages@),
            uids@ == app_uids(apps_of(seen[i as int].1), packages@),
            uids_fault(seen, i as int, 0, packages@) == uids_fault(
                seen,
                i as int,
                j as int,
                packages@,
            ),
        decreases uids.len() - j,
    {
        match owner_of_uid(profiles, lists, uids[j], packages) {
            Some(owner) => if *owner != *name {
                return Some(
                    Refusal::UidClaimed {
                        uid: uids[j],
                        owner: owner.clone(),
                        name: name.clone(),
                    },
                );
            },
            None => {},
        }
        j += 1;
    }
    None
}

/// Checks that no two profiles have apps of one UID.
pub fn validate_effective_uid_ownership(
    profiles: &Vec<(String, Json)>,
    packages: &PackageUids,
) -> (r: Result<(), EngineError>)
    ensures
        ownership_fault(entries_view(profiles@), 0, packages@) == match r {
            Ok(()) => None,
            Err(e) => Some(e@),
        },
{
    let ghost seen = entries_view(profiles@);
    let mut lists: Vec<Vec<u32>> = Vec::new();
    while lists.len() < profiles.len()
        invariant
            seen == entries_view(profiles@),
            uid_lists(lists@, seen, packages@),
            ownership_fault(seen, 0, packages@) == ownership_fault(
                seen,
                lists@.len() as int,
                packages@,
            ),
        decreases profiles.len() - lists.len(),
    {
        let i: usize = lists.len();
        let uids: Vec<u32> = uids_of_profile(&profiles[i].1, packages);
        match uids_error(profiles, &lists, &uids, Ghost(packages@)) {
            Some(e) => {
                return Err(e);
            },
            None => {},
        }
        lists.push(uids);
    }
    Ok(())
}

/// Checks a config. The first fault is reported: of the document, then of each
/// profile in the order of the document, then of the UIDs.
pub fn validate_teesim_config(config: &Json, packages: &PackageUids) -> (r: Result<
    (),
    EngineError,
>)
    ensures
        config_fault(config@, packages@) == match r {
            Ok(()) => None,
            Err(e) => Some(e@),
        },
        r is Ok <==> is_valid_config(config@, packages@),
{
    proof {
        law_accepted_configs_are_the_valid_ones(config@, packages@);
    }
    if config.as_object().is_none() {
        return Err(Refusal::RootNotObject);
    }
    match config.get("version") {
        Some(Json::Number(JsonNumber::Unsigned(1))) => {},
        _ => {
            return Err(Refusal::UnsupportedVersion);
        },
    }
    match profiles(config) {
        None => Err(Refusal::ProfilesNotObject),
        Some(profiles) => {
            if profiles.len() == 0 {
                return Err(Refusal::ProfilesEmpty);
            }
            let ghost seen = entries_view(profiles@);
            let mut i: usize = 0;
            while i < profiles.len()
                invariant
                    i <= profiles.len(),
                    seen == entries_view(profiles@),
                    profiles_fault(seen, 0) == profiles_fault(seen, i as int),
                    config_fault(config@, packages@) == first_of(
                        profiles_fault(seen, 0),
                        ownership_fault(seen, 0, packages@),
                    ),
                    config_fault(config@, packages@) is None <==> is_valid_config(
                        config@,
                        packages@,
                    ),
                decreases profiles.len() - i,
            {
                match profile_error(profiles, i) {
                    Some(e) => {
                        return Err(e);
                    },
                    None => {},
                }
                i += 1;
            }
            validate_effective_uid_ownership(profiles, packages)
        },
    }
}

proof fn lemma_no_profile_fault(profiles: Seq<(Seq<char>, JsonView)>, from: int, i: int)
    requires
        profiles_fault(profiles, from) is None,
        0 <= from <= i < profiles.len(),
    ensures
        profile_fault(profiles, i) is None,
    decreases i - from,
{
    if from < i {
        lemma_no_profile_fault(profiles, from + 1, i);
    }
}

proof fn lemma_no_app_fault(profiles: Seq<(Seq<char>, JsonView)>, i: int, from: int, j: int)
    requires
        apps_fault(profiles, i, from) is None,
        0 <= from <= j < apps_of(profiles[i].1).len(),
    ensures
        app_fault(profiles, i, apps_of(profiles[i].1)[j]) is None,
    decreases j - from,
{
    if from < j {
        lemma_no_app_fault(profiles, i, from + 1, j);
    }
}

proof fn lemma_no_ownership_fault(
    profiles: Seq<(Seq<char>, JsonView)>,
    from: int,
    i: int,
    packages: Map<Seq<char>, u32>,
)
    requires
        ownership_fault(profiles, from, packages) is None,
        0 <= from <= i < profiles.len(),
    ensures
        uids_fault(profiles, i, 0, packages) is None,
    decreases i - from,
{
    if from < i {
        lemma_no_ownership_fault(profiles, from + 1, i, packages);
    }
}

proof fn lemma_no_uid_fault(
    profiles: Seq<(Seq<char>, JsonView)>,
    i: int,
    from: int,
    j: int,
    packages: Map<Seq<char>, u32>,
)
    requires
        uids_fault(profiles, i, from, packages) is None,
        0 <= from <= j < app_uids(apps_of(profiles[i].1), packages).len(),
    ensures
        match uid_owner(
            profiles,
            i,
            app_uids(apps_of(profiles[i].1), packages)[j],
            packages,
        ) {
            Some(owner) => owner == profiles[i].0,
            None => true,
        },
    decreases j - from,
{
    if from < j {
        lemma_no_uid_fault(profiles, i, from + 1, j, packages);
    }
}

/// A text that may stand in an app list.
pub open spec fn is_listed_app(entry: JsonView) -> bool {
    match entry {
        JsonView::Text(app) => is_app_entry(app),
        _ => false,
    }
}

/// In a valid config there is a profile, and each one is an object with an allowed
/// name, an allowed keybox and allowed app entries; one that does not take new apps
/// has an app.
pub proof fn law_valid_profiles(config: JsonView, packages: Map<Seq<char>, u32>, i: int)
    requires
        config_fault(config, packages) is None,
    ensures
        profiles_of(config) matches Some(profiles) && profiles.len() > 0 && (0 <= i
            < profiles.len() ==> {
            let (name, profile) = profiles[i];
            &&& is_profile_name(name)
            &&& profile is Object
            &&& profile.field("keybox"@) matches Some(JsonView::Text(keybox)) && is_keybox_name(
                keybox,
            )
            &&& takes_new_apps(profile) || apps_of(profile).len() > 0
            &&& forall|j: int|
                0 <= j < apps_of(profile).len() ==> is_listed_app(#[trigger] apps_of(profile)[j])
        }),
{
    let profiles = profiles_of(config)->0;
    if 0 <= i < profiles.len() {
        lemma_no_profile_fault(profiles, 0, i);
        let profile = profiles[i].1;
        assert forall|j: int| 0 <= j < apps_of(profile).len() implies is_listed_app(
            #[trigger] apps_of(profile)[j],
        ) by {
            lemma_no_app_fault(profiles, i, 0, j);
        }
    }
}

/// In a valid config new apps go to at most one profile.
pub proof fn law_one_profile_takes_new_apps(
    config: JsonView,
    packages: Map<Seq<char>, u32>,
    i: int,
    k: int,
)
    requires
        config_fault(config, packages) is None,
    ensures
        profiles_of(config) matches Some(profiles) && (0 <= k < i < profiles.len() ==> !(
        takes_new_apps(profiles[i].1) && takes_new_apps(profiles[k].1))),
{
    let profiles = profiles_of(config)->0;
    if 0 <= k < i < profiles.len() {
        lemma_no_profile_fault(profiles, 0, i);
        assert(takes_new_apps(profiles[k].1) ==> new_apps_taken(profiles, i));
    }
}

/// In a valid config no two profiles of different names have the same app entry.
pub proof fn law_apps_have_one_profile(
    config: JsonView,
    packages: Map<Seq<char>, u32>,
    i: int,
    k: int,
    app: Seq<char>,
)
    requires
        config_fault(config, packages) is None,
    ensures
        profiles_of(config) matches Some(profiles) && (0 <= k < profiles.len() && 0 <= i
            < profiles.len() && profiles[k].0 != profiles[i].0 ==> !(apps_of(
            profiles[i].1,
        ).contains(JsonView::Text(app)) && apps_of(profiles[k].1).contains(JsonView::Text(app)))),
{
    let profiles = profiles_of(config)->0;
    if 0 <= k < profiles.len() && 0 <= i < profiles.len() && profiles[k].0 != profiles[i].0
        && apps_of(profiles[i].1).contains(JsonView::Text(app)) && apps_of(
        profiles[k].1,
    ).contains(JsonView::Text(app)) {
        lemma_claimed_by_first(profiles, i, app);
        lemma_claimed_by_first(profiles, k, app);
        let last = if i < k {
            k
        } else {
            i
        };
        lemma_app_owner_stays(profiles, i + 1, last + 1, app);
        lemma_app_owner_stays(profiles, k + 1, last + 1, app);
    }
}

proof fn lemma_claimed_by_first(profiles: Seq<(Seq<char>, JsonView)>, i: int, app: Seq<char>)
    requires
        profiles_fault(profiles, 0) is None,
        0 <= i < profiles.len(),
        apps_of(profiles[i].1).contains(JsonView::Text(app)),
    ensures
        app_owner(profiles, i + 1, app) == Some(profiles[i].0),
{
    lemma_no_profile_fault(profiles, 0, i);
    let apps = apps_of(profiles[i].1);
    let j = choose|j: int| 0 <= j < apps.len() && apps[j] == JsonView::Text(app);
    lemma_no_app_fault(profiles, i, 0, j);
}

/// In a valid config no two profiles of different names have apps of one UID.
pub proof fn law_uids_have_one_profile(
    config: JsonView,
    packages: Map<Seq<char>, u32>,
    i: int,
    k: int,
    uid: u32,
)
    requires
        config_fault(config, packages) is None,
    ensures
        profiles_of(config) matches Some(profiles) && (0 <= k < profiles.len() && 0 <= i
            < profiles.len() && profiles[k].0 != profiles[i].0 ==> !(app_uids(
            apps_of(profiles[i].1),
            packages,
        ).contains(uid) && app_uids(apps_of(profiles[k].1), packages).contains(uid))),
{
    let profiles = profiles_of(config)->0;
    if 0 <= k < profiles.len() && 0 <= i < profiles.len() && profiles[k].0 != profiles[i].0
        && app_uids(apps_of(profiles[i].1), packages).contains(uid) && app_uids(
        apps_of(profiles[k].1),
        packages,
    ).contains(uid) {
        lemma_uid_claimed_by_first(profiles, i, uid, packages);
        lemma_uid_claimed_by_first(profiles, k, uid, packages);
        let last = if i < k {
            k
        } else {
            i
        };
        lemma_uid_owner_stays(profiles, i + 1, last + 1, uid, packages);
        lemma_uid_owner_stays(profiles, k + 1, last + 1, uid, packages);
    }
}

proof fn lemma_uid_claimed_by_first(
    profiles: Seq<(Seq<char>, JsonView)>,
    i: int,
    uid: u32,
    packages: Map<Seq<char>, u32>,
)
    requires
        ownership_fault(profiles, 0, packages) is None,
        0 <= i < profiles.len(),
        app_uids(apps_of(profiles[i].1), packages).contains(uid),
    ensures
        uid_owner(profiles, i + 1, uid, packages) == Some(profiles[i].0),
{
    lemma_no_ownership_fault(profiles, 0, i, packages);
    let uids = app_uids(apps_of(profiles[i].1), packages);
    let j = choose|j: int| 0 <= j < uids.len() && uids[j] == uid;
    lemma_no_uid_fault(profiles, i, 0, j, packages);
}

/// A patch level that a profile may hold: none, an empty one, or an allowed one.
pub open spec fn is_valid_level(level: Option<JsonView>) -> bool {
    match level {
        None => true,
        Some(JsonView::Text(value)) => value.len() == 0 || is_patch_value(value),
        _ => false,
    }
}

/// A profile that may stand in a config under `name`, whatever else is in the config.
pub open spec fn is_valid_profile(name: Seq<char>, profile: JsonView) -> bool {
    &&& is_profile_name(name)
    &&& profile is Object
    &&& match profile.field("keybox"@) {
        Some(JsonView::Text(keybox)) => is_keybox_name(keybox),
        _ => false,
    }
    &&& match profile.field("apps"@) {
        None => true,
        Some(JsonView::Array(items)) => forall|j: int|
            0 <= j < items.len() ==> is_listed_app(#[trigger] items[j]),
        _ => false,
    }
    &&& match profile.field("autoIncludeNewApps"@) {
        None => true,
        Some(JsonView::Bool(_)) => true,
        _ => false,
    }
    &&& match profile.field("mode"@) {
        None => true,
        Some(JsonView::Text(mode)) => mode == "patch"@ || mode == "generation"@,
        _ => false,
    }
    &&& match profile.field("patchLevel"@) {
        None => true,
        Some(patch) => {
            &&& patch is Object
            &&& is_valid_level(patch.field("system"@))
            &&& is_valid_level(patch.field("vendor"@))
            &&& is_valid_level(patch.field("boot"@))
        },
    }
    &&& takes_new_apps(profile) || apps_of(profile).len() > 0
}

/// An app list has this entry.
pub open spec fn lists(apps: Seq<JsonView>, app: Seq<char>) -> bool {
    apps.contains(JsonView::Text(app))
}

/// The app list of a profile has this entry.
pub open spec fn has_app(profile: JsonView, app: Seq<char>) -> bool {
    lists(apps_of(profile), app)
}

/// Two entries stand for the same app: they are the same, or they have the same UID.
pub open spec fn is_same_app(a: Seq<char>, b: Seq<char>, packages: Map<Seq<char>, u32>) -> bool {
    a == b || (uid_of_entry(a, packages) is Some && uid_of_entry(a, packages) == uid_of_entry(
        b,
        packages,
    ))
}

/// Two profiles have an app in common.
pub open spec fn share_an_app(a: JsonView, b: JsonView, packages: Map<Seq<char>, u32>) -> bool {
    exists|app: Seq<char>, other: Seq<char>|
        #[trigger] has_app(a, app) && #[trigger] has_app(b, other) && is_same_app(
            app,
            other,
            packages,
        )
}

/// A config that TEESimulator takes.
pub open spec fn is_valid_config(config: JsonView, packages: Map<Seq<char>, u32>) -> bool {
    &&& config is Object
    &&& config.field("version"@) == Some(JsonView::Number(JsonNumber::Unsigned(1)))
    &&& profiles_of(config) is Some
    &&& profiles_of(config)->0.len() > 0
    &&& are_valid_profiles(profiles_of(config)->0, packages)
}

/// Profiles that may stand in one config: each is a valid one, at most one takes new apps,
/// and no two of different names have an app in common.
pub open spec fn are_valid_profiles(
    profiles: Seq<(Seq<char>, JsonView)>,
    packages: Map<Seq<char>, u32>,
) -> bool {
    &&& forall|i: int|
        0 <= i < profiles.len() ==> is_valid_profile(#[trigger] profiles[i].0, profiles[i].1)
    &&& forall|i: int, k: int|
        0 <= k < i < profiles.len() ==> !(takes_new_apps(#[trigger] profiles[i].1)
            && takes_new_apps(#[trigger] profiles[k].1))
    &&& forall|i: int, k: int|
        0 <= i < profiles.len() && 0 <= k < profiles.len() && profiles[i].0 != profiles[k].0
            ==> !share_an_app(#[trigger] profiles[i].1, #[trigger] profiles[k].1, packages)
}

/// The UIDs of a list are those of its entries.
pub proof fn lemma_app_uids(apps: Seq<JsonView>, uid: u32, packages: Map<Seq<char>, u32>)
    ensures
        app_uids(apps, packages).contains(uid) <==> exists|app: Seq<char>|
            #[trigger] lists(apps, app) && uid_of_entry(app, packages) == Some(
                uid,
            ),
    decreases apps.len(),
{
    if apps.len() > 0 {
        let before = apps.drop_last();
        let last = apps.last();
        let rest = app_uids(before, packages);
        let all = app_uids(apps, packages);
        lemma_app_uids(before, uid, packages);
        if all.contains(uid) {
            let k = choose|k: int| 0 <= k < all.len() && all[k] == uid;
            if k < rest.len() {
                assert(rest[k] == uid);
                let app = choose|app: Seq<char>|
                    #[trigger] lists(before, app) && uid_of_entry(app, packages)
                        == Some(uid);
                let j = choose|j: int| 0 <= j < before.len() && before[j] == JsonView::Text(app);
                assert(apps[j] == JsonView::Text(app));
                assert(lists(apps, app));
            } else {
                assert(apps[apps.len() - 1] == JsonView::Text(last->Text_0));
                assert(lists(apps, last->Text_0));
            }
        }
        if exists|app: Seq<char>|
            #[trigger] lists(apps, app) && uid_of_entry(app, packages) == Some(
                uid,
            ) {
            let app = choose|app: Seq<char>|
                #[trigger] lists(apps, app) && uid_of_entry(app, packages)
                    == Some(uid);
            let j = choose|j: int| 0 <= j < apps.len() && apps[j] == JsonView::Text(app);
            if j < before.len() {
                assert(before[j] == JsonView::Text(app));
                assert(lists(before, app));
                let k = choose|k: int| 0 <= k < rest.len() && rest[k] == uid;
                assert(all[k] == uid);
            } else {
                assert(all[rest.len() as int] == uid);
            }
        }
    }
}

/// The owner of an app is a profile that has it.
pub proof fn lemma_app_owner_at(profiles: Seq<(Seq<char>, JsonView)>, n: int, app: Seq<char>)
    requires
        n <= profiles.len(),
        app_owner(profiles, n, app) is Some,
    ensures
        exists|k: int|
            0 <= k < n && #[trigger] profiles[k].0 == app_owner(profiles, n, app)->0 && has_app(
                profiles[k].1,
                app,
            ),
    decreases n,
{
    if n > 0 && app_owner(profiles, n - 1, app) is Some {
        lemma_app_owner_at(profiles, n - 1, app);
    } else {
        assert(profiles[n - 1].0 == app_owner(profiles, n, app)->0);
    }
}

/// The owner of a UID is a profile that has an app of it.
pub proof fn lemma_uid_owner_at(
    profiles: Seq<(Seq<char>, JsonView)>,
    n: int,
    uid: u32,
    packages: Map<Seq<char>, u32>,
)
    requires
        n <= profiles.len(),
        uid_owner(profiles, n, uid, packages) is Some,
    ensures
        exists|k: int|
            0 <= k < n && #[trigger] profiles[k].0 == uid_owner(profiles, n, uid, packages)->0
                && app_uids(apps_of(profiles[k].1), packages).contains(uid),
    decreases n,
{
    if n > 0 && uid_owner(profiles, n - 1, uid, packages) is Some {
        lemma_uid_owner_at(profiles, n - 1, uid, packages);
    } else {
        assert(profiles[n - 1].0 == uid_owner(profiles, n, uid, packages)->0);
    }
}

proof fn lemma_valid_form(name: Seq<char>, profile: JsonView)
    ensures
        is_valid_profile(name, profile) <==> {
            &&& form_fault(name, profile) is None
            &&& takes_new_apps(profile) || apps_of(profile).len() > 0
            &&& forall|j: int|
                0 <= j < apps_of(profile).len() ==> is_listed_app(#[trigger] apps_of(profile)[j])
        },
{
}

proof fn lemma_valid_apps(
    profiles: Seq<(Seq<char>, JsonView)>,
    packages: Map<Seq<char>, u32>,
    i: int,
    j: int,
)
    requires
        are_valid_profiles(profiles, packages),
        0 <= i < profiles.len(),
    ensures
        apps_fault(profiles, i, j) is None,
    decreases apps_of(profiles[i].1).len() - j,
{
    let apps = apps_of(profiles[i].1);
    if 0 <= j < apps.len() {
        lemma_valid_apps(profiles, packages, i, j + 1);
        assert(is_valid_profile(profiles[i].0, profiles[i].1));
        lemma_valid_form(profiles[i].0, profiles[i].1);
        assert(is_listed_app(apps[j]));
        let app = apps[j]->Text_0;
        if app_owner(profiles, i, app) is Some {
            lemma_app_owner_at(profiles, i, app);
            let k = choose|k: int|
                0 <= k < i && #[trigger] profiles[k].0 == app_owner(profiles, i, app)->0
                    && has_app(profiles[k].1, app);
            assert(has_app(profiles[i].1, app));
            assert(is_same_app(app, app, packages));
            assert(profiles[k].0 != profiles[i].0 ==> !share_an_app(
                profiles[i].1,
                profiles[k].1,
                packages,
            ));
        }
    }
}

proof fn lemma_valid_uids(
    profiles: Seq<(Seq<char>, JsonView)>,
    packages: Map<Seq<char>, u32>,
    i: int,
    j: int,
)
    requires
        are_valid_profiles(profiles, packages),
        0 <= i < profiles.len(),
    ensures
        uids_fault(profiles, i, j, packages) is None,
    decreases app_uids(apps_of(profiles[i].1), packages).len() - j,
{
    let uids = app_uids(apps_of(profiles[i].1), packages);
    if 0 <= j < uids.len() {
        lemma_valid_uids(profiles, packages, i, j + 1);
        let uid = uids[j];
        if uid_owner(profiles, i, uid, packages) is Some {
            lemma_uid_owner_at(profiles, i, uid, packages);
            let k = choose|k: int|
                0 <= k < i && #[trigger] profiles[k].0 == uid_owner(profiles, i, uid, packages)->0
                    && app_uids(apps_of(profiles[k].1), packages).contains(uid);
            assert(uids.contains(uid));
            lemma_app_uids(apps_of(profiles[i].1), uid, packages);
            lemma_app_uids(apps_of(profiles[k].1), uid, packages);
            let app = choose|app: Seq<char>|
                #[trigger] lists(apps_of(profiles[i].1), app) && uid_of_entry(
                    app,
                    packages,
                ) == Some(uid);
            let other = choose|app: Seq<char>|
                #[trigger] lists(apps_of(profiles[k].1), app) && uid_of_entry(
                    app,
                    packages,
                ) == Some(uid);
            assert(has_app(profiles[i].1, app) && has_app(profiles[k].1, other));
            assert(is_same_app(app, other, packages));
            assert(profiles[k].0 != profiles[i].0 ==> !share_an_app(
                profiles[i].1,
                profiles[k].1,
                packages,
            ));
        }
    }
}

proof fn lemma_valid_from(
    profiles: Seq<(Seq<char>, JsonView)>,
    packages: Map<Seq<char>, u32>,
    i: int,
)
    requires
        are_valid_profiles(profiles, packages),
        0 <= i,
    ensures
        profiles_fault(profiles, i) is None,
        ownership_fault(profiles, i, packages) is None,
    decreases profiles.len() - i,
{
    if i < profiles.len() {
        lemma_valid_from(profiles, packages, i + 1);
        assert(is_valid_profile(profiles[i].0, profiles[i].1));
        lemma_valid_form(profiles[i].0, profiles[i].1);
        lemma_valid_apps(profiles, packages, i, 0);
        lemma_valid_uids(profiles, packages, i, 0);
        assert(share_fault(profiles, i) is None);
    }
}

/// A config is accepted if and only if it is valid: the conditions of `is_valid_config`
/// hold.
pub proof fn law_accepted_configs_are_the_valid_ones(
    config: JsonView,
    packages: Map<Seq<char>, u32>,
)
    ensures
        config_fault(config, packages) is None <==> is_valid_config(config, packages),
{
    if config_fault(config, packages) is None {
        let profiles = profiles_of(config)->0;
        assert forall|i: int| 0 <= i < profiles.len() implies is_valid_profile(
            #[trigger] profiles[i].0,
            profiles[i].1,
        ) by {
            law_valid_profiles(config, packages, i);
            lemma_no_profile_fault(profiles, 0, i);
            lemma_valid_form(profiles[i].0, profiles[i].1);
        }
        assert forall|i: int, k: int| 0 <= k < i < profiles.len() implies !(takes_new_apps(
            #[trigger] profiles[i].1,
        ) && takes_new_apps(#[trigger] profiles[k].1)) by {
            law_one_profile_takes_new_apps(config, packages, i, k);
        }
        assert forall|i: int, k: int|
            0 <= i < profiles.len() && 0 <= k < profiles.len() && profiles[i].0
                != profiles[k].0 implies !share_an_app(
            #[trigger] profiles[i].1,
            #[trigger] profiles[k].1,
            packages,
        ) by {
            let a = profiles[i].1;
            let b = profiles[k].1;
            if share_an_app(a, b, packages) {
                let (app, other) = choose|app: Seq<char>, other: Seq<char>|
                    #[trigger] has_app(a, app) && #[trigger] has_app(b, other) && is_same_app(
                        app,
                        other,
                        packages,
                    );
                law_apps_have_one_profile(config, packages, i, k, app);
                if app != other {
                    let uid = uid_of_entry(app, packages)->0;
                    assert(lists(apps_of(a), app));
                    assert(lists(apps_of(b), other));
                    lemma_app_uids(apps_of(a), uid, packages);
                    lemma_app_uids(apps_of(b), uid, packages);
                    law_uids_have_one_profile(config, packages, i, k, uid);
                }
            }
        }
    }
    if is_valid_config(config, packages) {
        lemma_valid_from(profiles_of(config)->0, packages, 0);
    }
}

} // verus!
