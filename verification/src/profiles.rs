//! The profiles of a TEESimulator config: which one is selected, what it holds, and
//! how it is changed.
use crate::config::{
    app_list, app_uids, apps_of, config_fault, law_valid_profiles, lists_app, lists_uid, profiles,
    profiles_of, uids_of_profile, validate_teesim_config,
};
use crate::error::{done, text_answer, texts_answer, EngineError, Refusal};
use crate::json::{
    entries_view, find_entry, items_view, law_entry_is_read_back, lemma_array_view,
    lemma_field_keeps, lemma_lookup_at, lemma_object_view, lemma_replaced_entry,
    lemma_with_field_keeps, lookup, with_entry, Json, JsonView,
};
use crate::packages::{effective_uid, uid_of_entry, PackageUids};
use crate::text::{join, joined, same, texts};
use vstd::prelude::*;

verus! {

/// The name of the selected profile: the only one, or else the configured one.
/// `configured` holds words where the addon's settings could not be loaded.
pub open spec fn selected_name(config: JsonView, configured: Setting) -> Result<
    Seq<char>,
    Refusal<Seq<char>>,
> {
    match profiles_of(config) {
        None => Err(Refusal::ProfilesNotObject),
        Some(profiles) => if profiles.len() == 1 {
            Ok(profiles[0].0)
        } else {
            match configured {
                Err(words) => Err(Refusal::SettingsFailed { words }),
                Ok(name) => if name.len() == 0 {
                    Err(Refusal::NoProfileSelected)
                } else if lookup(profiles, name) is Some {
                    Ok(name)
                } else {
                    Err(Refusal::ConfiguredProfileMissing { name })
                },
            }
        },
    }
}

/// The configured profile, or why the settings could not be loaded.
pub type Setting = Result<Seq<char>, Seq<char>>;

/// The configured profile, or why the settings could not be loaded.
pub open spec fn setting_of(configured: Result<String, String>) -> Setting {
    match configured {
        Ok(name) => Ok(name@),
        Err(words) => Err(words@),
    }
}

/// An optional text.
pub open spec fn text_option(text: Option<String>) -> Option<Seq<char>> {
    match text {
        Some(s) => Some(s@),
        None => None,
    }
}

/// The name of the selected profile.
pub fn selected_profile_name(config: &Json, configured: &Result<String, String>) -> (r: Result<
    String,
    EngineError,
>)
    ensures
        text_answer(r) == selected_name(config@, setting_of(*configured)),
{
    match profiles(config) {
        None => Err(Refusal::ProfilesNotObject),
        Some(profiles) => {
            if profiles.len() == 1 {
                return Ok(profiles[0].0.clone());
            }
            match configured {
                Err(words) => Err(Refusal::SettingsFailed { words: words.clone() }),
                Ok(name) => if name.as_str().is_empty() {
                    Err(Refusal::NoProfileSelected)
                } else {
                    match find_entry(profiles, name.as_str()) {
                        Some(_) => Ok(name.clone()),
                        None => Err(Refusal::ConfiguredProfileMissing { name: name.clone() }),
                    }
                },
            }
        },
    }
}

/// The selected profile.
pub open spec fn selected_object(config: JsonView, configured: Setting) -> Result<
    JsonView,
    Refusal<Seq<char>>,
> {
    match selected_name(config, configured) {
        Err(e) => Err(e),
        Ok(name) => match lookup(profiles_of(config)->0, name) {
            Some(profile) => if profile is Object {
                Ok(profile)
            } else {
                Err(Refusal::SelectedNotObject)
            },
            None => Err(Refusal::SelectedNotObject),
        },
    }
}

/// The selected profile.
pub fn selected_profile<'a>(config: &'a Json, configured: &Result<String, String>) -> (r: Result<
    &'a Json,
    EngineError,
>)
    ensures
        selected_object(config@, setting_of(*configured)) == match r {
            Ok(profile) => Ok(profile@),
            Err(e) => Err(e@),
        },
{
    match selected_profile_name(config, configured) {
        Err(e) => Err(e),
        Ok(name) => match profiles(config) {
            Some(profiles) => match find_entry(profiles, name.as_str()) {
                Some(profile) => if profile.as_object().is_some() {
                    Ok(profile)
                } else {
                    Err(Refusal::SelectedNotObject)
                },
                None => Err(Refusal::SelectedNotObject),
            },
            None => Err(Refusal::SelectedNotObject),
        },
    }
}

/// The texts among the elements of a list.
pub open spec fn text_items(items: Seq<JsonView>) -> Seq<Seq<char>>
    decreases items.len(),
{
    if items.len() == 0 {
        seq![]
    } else {
        match items.last() {
            JsonView::Text(text) => text_items(items.drop_last()).push(text),
            _ => text_items(items.drop_last()),
        }
    }
}

/// The apps of a profile.
pub fn profile_apps(profile: &Json) -> (r: Vec<String>)
    ensures
        texts(r@) == text_items(apps_of(profile@)),
{
    let mut out: Vec<String> = Vec::new();
    match profile.get("apps") {
        Some(Json::Array(items)) => {
            broadcast use lemma_array_view;

            let ghost seen = items_view(items@);
            let mut i: usize = 0;
            assert(seen.take(0) == Seq::<JsonView>::empty());
            assert(texts(out@) == Seq::<Seq<char>>::empty());
            while i < items.len()
                invariant
                    i <= items.len(),
                    seen == items_view(items@),
                    texts(out@) == text_items(seen.take(i as int)),
                decreases items.len() - i,
            {
                let ghost before = texts(out@);
                assert(seen.take(i + 1).drop_last() == seen.take(i as int));
                assert(seen.take(i + 1).last() == items@[i as int]@);
                match &items[i] {
                    Json::Text(text) => {
                        out.push(text.clone());
                        assert(texts(out@) == before.push(text@));
                    },
                    _ => {},
                }
                i += 1;
            }
            assert(seen.take(i as int) == seen);
        },
        _ => {
            assert(texts(out@) == Seq::<Seq<char>>::empty());
        },
    }
    out
}

/// The patch level of a profile under `key`; empty where there is none.
pub open spec fn patch_level(profile: JsonView, key: Seq<char>) -> Seq<char> {
    match profile.field("patchLevel"@) {
        Some(patch) => match patch.field(key) {
            Some(JsonView::Text(level)) => level,
            _ => seq![],
        },
        None => seq![],
    }
}

/// The patch level under `key` of what a profile has as `patchLevel`.
pub fn patch_value(patch: Option<&Json>, key: &str) -> (r: String)
    ensures
        r@ == match patch {
            Some(patch) => match patch@.field(key@) {
                Some(JsonView::Text(level)) => level,
                _ => seq![],
            },
            None => seq![],
        },
{
    match patch {
        Some(patch) => match patch.get(key) {
            Some(Json::Text(level)) => level.clone(),
            _ => String::new(),
        },
        None => String::new(),
    }
}

/// Whether a profile has this entry, or an app of its UID.
pub open spec fn claims(
    profile: JsonView,
    entry: Seq<char>,
    packages: Map<Seq<char>, u32>,
) -> bool {
    ||| apps_of(profile).contains(JsonView::Text(entry))
    ||| match uid_of_entry(entry, packages) {
        Some(uid) => app_uids(apps_of(profile), packages).contains(uid),
        None => false,
    }
}

/// Whether a profile other than the selected one claims this entry.
pub open spec fn is_taken(
    profiles: Seq<(Seq<char>, JsonView)>,
    selected: Seq<char>,
    entry: Seq<char>,
    packages: Map<Seq<char>, u32>,
) -> bool {
    exists|k: int|
        0 <= k < profiles.len() && (#[trigger] profiles[k]).0 != selected && claims(
            profiles[k].1,
            entry,
            packages,
        )
}

/// The entries that other profiles claim.
pub open spec fn taken_entries(
    profiles: Seq<(Seq<char>, JsonView)>,
    selected: Seq<char>,
    entries: Seq<Seq<char>>,
    packages: Map<Seq<char>, u32>,
) -> Seq<Seq<char>>
    decreases entries.len(),
{
    if entries.len() == 0 {
        seq![]
    } else {
        let rest = taken_entries(profiles, selected, entries.drop_last(), packages);
        if is_taken(profiles, selected, entries.last(), packages) {
            rest.push(entries.last())
        } else {
            rest
        }
    }
}

/// A list of texts.
pub open spec fn text_array(entries: Seq<Seq<char>>) -> JsonView {
    JsonView::Array(Seq::new(entries.len(), |i: int| JsonView::Text(entries[i])))
}

/// A profile with other apps. A profile that is null becomes an object.
pub open spec fn with_apps(profile: JsonView, entries: Seq<Seq<char>>) -> JsonView {
    let object = if profile is Null {
        JsonView::Object(seq![])
    } else {
        profile
    };
    object.with_field("apps"@, text_array(entries))
}

/// A config with another profile under `name`.
pub open spec fn with_profile(config: JsonView, name: Seq<char>, profile: JsonView) -> JsonView {
    config.with_field(
        "profiles"@,
        JsonView::Object(with_entry(profiles_of(config)->0, name, profile)),
    )
}

/// The profiles of a config; none where the config has no profiles.
pub open spec fn profiles_or_none(config: JsonView) -> Seq<(Seq<char>, JsonView)> {
    match profiles_of(config) {
        Some(profiles) => profiles,
        None => seq![],
    }
}

/// The config after the apps of a profile were replaced.
pub open spec fn updated_apps(
    config: JsonView,
    entries: Seq<Seq<char>>,
    selected: Seq<char>,
    packages: Map<Seq<char>, u32>,
) -> Result<JsonView, Refusal<Seq<char>>> {
    let profiles = profiles_or_none(config);
    let taken = taken_entries(profiles, selected, entries, packages);
    if taken.len() > 0 {
        Err(Refusal::AppsAssigned { apps: joined(taken, ", "@) })
    } else {
        match lookup(profiles, selected) {
            None => Err(Refusal::SelectedMissing),
            Some(profile) => Ok(with_profile(config, selected, with_apps(profile, entries))),
        }
    }
}

/// Whether a profile has this entry, or an app of its UID.
fn profile_claims(profile: &Json, entry: &String, packages: &PackageUids) -> (r: bool)
    ensures
        r == claims(profile@, entry@, packages@),
{
    match app_list(profile) {
        None => false,
        Some(apps) => {
            if lists_app(apps, entry) {
                return true;
            }
            match effective_uid(entry.as_str(), packages) {
                Some(uid) => lists_uid(&uids_of_profile(profile, packages), uid),
                None => false,
            }
        },
    }
}

fn entry_is_taken(
    profiles: &Vec<(String, Json)>,
    selected: &str,
    entry: &String,
    packages: &PackageUids,
) -> (r: bool)
    ensures
        r == is_taken(entries_view(profiles@), selected@, entry@, packages@),
{
    let ghost seen = entries_view(profiles@);
    let mut i: usize = 0;
    while i < profiles.len()
        invariant
            i <= profiles.len(),
            seen == entries_view(profiles@),
            forall|k: int|
                0 <= k < i ==> !((#[trigger] seen[k]).0 != selected@ && claims(
                    seen[k].1,
                    entry@,
                    packages@,
                )),
        decreases profiles.len() - i,
    {
        if !same(profiles[i].0.as_str(), selected) && profile_claims(
            &profiles[i].1,
            entry,
            packages,
        ) {
            assert(seen[i as int].0 != selected@);
            return true;
        }
        i += 1;
    }
    false
}

fn find_taken(
    profiles: &Vec<(String, Json)>,
    selected: &str,
    entries: &Vec<String>,
    packages: &PackageUids,
) -> (r: Vec<String>)
    ensures
        texts(r@) == taken_entries(
            entries_view(profiles@),
            selected@,
            texts(entries@),
            packages@,
        ),
{
    let ghost seen = entries_view(profiles@);
    let ghost all = texts(entries@);
    let mut out: Vec<String> = Vec::new();
    let mut i: usize = 0;
    assert(all.take(0) == Seq::<Seq<char>>::empty());
    assert(texts(out@) == Seq::<Seq<char>>::empty());
    while i < entries.len()
        invariant
            i <= entries.len(),
            seen == entries_view(profiles@),
            all == texts(entries@),
            texts(out@) == taken_entries(seen, selected@, all.take(i as int), packages@),
        decreases entries.len() - i,
    {
        let ghost before = texts(out@);
        assert(all.take(i + 1).drop_last() == all.take(i as int));
        assert(all.take(i + 1).last() == entries@[i as int]@);
        if entry_is_taken(profiles, selected, &entries[i], packages) {
            out.push(entries[i].clone());
            assert(texts(out@) == before.push(entries@[i as int]@));
        }
        i += 1;
    }
    assert(all.take(i as int) == all);
    out
}

/// A list of texts as a JSON array.
fn array_of(entries: &Vec<String>) -> (r: Json)
    ensures
        r@ == text_array(texts(entries@)),
{
    broadcast use lemma_array_view;

    let mut items: Vec<Json> = Vec::new();
    let mut i: usize = 0;
    while i < entries.len()
        invariant
            i <= entries.len(),
            items@.len() == i,
            forall|k: int|
                0 <= k < i ==> (#[trigger] items@[k])@ == JsonView::Text(entries@[k]@),
        decreases entries.len() - i,
    {
        items.push(Json::Text(entries[i].clone()));
        i += 1;
    }
    assert(items_view(items@) == text_array(texts(entries@))->Array_0);
    Json::Array(items)
}

/// A copy of a list of texts.
pub fn copy_texts(entries: &Vec<String>) -> (r: Vec<String>)
    ensures
        texts(r@) == texts(entries@),
{
    let mut out: Vec<String> = Vec::new();
    let mut i: usize = 0;
    while i < entries.len()
        invariant
            i <= entries.len(),
            out@.len() == i,
            forall|k: int| 0 <= k < i ==> (#[trigger] out@[k])@ == entries@[k]@,
        decreases entries.len() - i,
    {
        out.push(entries[i].clone());
        i += 1;
    }
    assert(texts(out@) == texts(entries@));
    out
}

/// The profile can take the apps, where they are not refused: it is an object or null.
pub open spec fn takes_apps(
    config: JsonView,
    entries: Seq<Seq<char>>,
    selected: Seq<char>,
    packages: Map<Seq<char>, u32>,
) -> bool {
    updated_apps(config, entries, selected, packages) is Ok ==> match lookup(
        profiles_or_none(config),
        selected,
    ) {
        Some(profile) => profile is Object || profile is Null,
        None => false,
    }
}

/// Replaces the apps of the profile `selected` by `entries`, unless another profile
/// claims one of them or there is no such profile; the config then stays as it is.
/// A profile that is neither an object nor null cannot take apps.
pub fn update_profile_apps_for(
    config: &mut Json,
    entries: &Vec<String>,
    selected: &str,
    packages: &PackageUids,
) -> (r: Result<Vec<String>, EngineError>)
    requires
        takes_apps(old(config)@, texts(entries@), selected@, packages@),
    ensures
        match updated_apps(old(config)@, texts(entries@), selected@, packages@) {
            Ok(after) => final(config)@ == after && texts_answer(r) == Ok::<
                Seq<Seq<char>>,
                Refusal<Seq<char>>,
            >(texts(entries@)),
            Err(e) => final(config)@ == old(config)@ && texts_answer(r) == Err::<
                Seq<Seq<char>>,
                Refusal<Seq<char>>,
            >(e),
        },
{
    let ghost before = config@;
    let none: Vec<(String, Json)> = Vec::new();
    let taken: Vec<String> = match profiles(config) {
        Some(profiles) => find_taken(profiles, selected, entries, packages),
        None => {
            assert(entries_view(none@) == Seq::<(Seq<char>, JsonView)>::empty());
            find_taken(&none, selected, entries, packages)
        },
    };
    if taken.len() > 0 {
        return Err(Refusal::AppsAssigned { apps: join(&taken, ", ") });
    }
    let found: bool = match profiles(config) {
        Some(profiles) => find_entry(profiles, selected).is_some(),
        None => false,
    };
    if !found {
        return Err(Refusal::SelectedMissing);
    }
    let apps: Json = array_of(entries);
    match config.get_mut("profiles") {
        Some(profiles) => match profiles.get_mut(selected) {
            Some(profile) => {
                broadcast use lemma_object_view;

                match profile {
                    Json::Null => {
                        *profile = Json::Object(none);
                        assert(entries_view(none@) == Seq::<(Seq<char>, JsonView)>::empty());
                    },
                    _ => {},
                }
                profile.put("apps", apps);
            },
            None => {},
        },
        None => {},
    }
    Ok(copy_texts(entries))
}

/// The config after the apps of the selected profile were replaced.
pub open spec fn updated_selected_apps(
    config: JsonView,
    entries: Seq<Seq<char>>,
    configured: Setting,
    packages: Map<Seq<char>, u32>,
) -> Result<JsonView, Refusal<Seq<char>>> {
    match selected_name(config, configured) {
        Err(e) => Err(e),
        Ok(selected) => updated_apps(config, entries, selected, packages),
    }
}

/// Every profile of the config is an object.
pub open spec fn profiles_are_objects(config: JsonView) -> bool {
    forall|k: int|
        0 <= k < profiles_or_none(config).len() ==> (#[trigger] profiles_or_none(
            config,
        )[k]).1 is Object
}

/// Replaces the apps of the selected profile by `entries`. Where that is refused,
/// the config stays as it is.
pub fn update_profile_apps(
    config: &mut Json,
    entries: &Vec<String>,
    configured: &Result<String, String>,
    packages: &PackageUids,
) -> (r: Result<Vec<String>, EngineError>)
    requires
        match selected_name(old(config)@, setting_of(*configured)) {
            Ok(selected) => takes_apps(old(config)@, texts(entries@), selected, packages@),
            Err(_) => true,
        },
    ensures
        match updated_selected_apps(
            old(config)@,
            texts(entries@),
            setting_of(*configured),
            packages@,
        ) {
            Ok(after) => final(config)@ == after && texts_answer(r) == Ok::<
                Seq<Seq<char>>,
                Refusal<Seq<char>>,
            >(texts(entries@)),
            Err(e) => final(config)@ == old(config)@ && texts_answer(r) == Err::<
                Seq<Seq<char>>,
                Refusal<Seq<char>>,
            >(e),
        },
{
    match selected_profile_name(config, configured) {
        Err(e) => Err(e),
        Ok(selected) => {
            update_profile_apps_for(config, entries, selected.as_str(), packages)
        },
    }
}

/// The patch levels of an object, replaced.
pub open spec fn with_levels(
    patch: JsonView,
    system: Seq<char>,
    boot: Seq<char>,
    vendor: Seq<char>,
) -> JsonView {
    patch.with_field("system"@, JsonView::Text(system)).with_field(
        "boot"@,
        JsonView::Text(boot),
    ).with_field("vendor"@, JsonView::Text(vendor))
}

/// The config after the patch levels of the selected profile were replaced.
pub open spec fn updated_levels(
    config: JsonView,
    configured: Setting,
    system: Seq<char>,
    boot: Seq<char>,
    vendor: Seq<char>,
) -> Result<JsonView, Refusal<Seq<char>>> {
    match selected_name(config, configured) {
        Err(e) => Err(e),
        Ok(name) => match lookup(profiles_or_none(config), name) {
            Some(JsonView::Object(fields)) => {
                let patch = match lookup(fields, "patchLevel"@) {
                    Some(patch) => patch,
                    None => JsonView::Object(seq![]),
                };
                if patch is Object {
                    Ok(
                        with_profile(
                            config,
                            name,
                            JsonView::Object(fields).with_field(
                                "patchLevel"@,
                                with_levels(patch, system, boot, vendor),
                            ),
                        ),
                    )
                } else {
                    Err(Refusal::SelectedPatchNotObject)
                }
            },
            _ => Err(Refusal::ChangedNotObject),
        },
    }
}

fn put_levels(patch: &mut Json, system: String, boot: String, vendor: String)
    requires
        old(patch)@ is Object,
    ensures
        final(patch)@ == with_levels(old(patch)@, system@, boot@, vendor@),
{
    patch.put("system", Json::Text(system));
    patch.put("boot", Json::Text(boot));
    patch.put("vendor", Json::Text(vendor));
}

fn change_profile_levels(
    profile: &mut Json,
    system: String,
    boot: String,
    vendor: String,
) -> (r: Result<(), EngineError>)
    ensures
        match old(profile)@ {
            JsonView::Object(fields) => {
                let patch = match lookup(fields, "patchLevel"@) {
                    Some(patch) => patch,
                    None => JsonView::Object(seq![]),
                };
                if patch is Object {
                    &&& r is Ok
                    &&& final(profile)@ == old(profile)@.with_field(
                        "patchLevel"@,
                        with_levels(patch, system@, boot@, vendor@),
                    )
                } else {
                    &&& done(r) == Err::<(), Refusal<Seq<char>>>(Refusal::SelectedPatchNotObject)
                    &&& final(profile)@ == old(profile)@
                }
            },
            _ => {
                &&& done(r) == Err::<(), Refusal<Seq<char>>>(Refusal::ChangedNotObject)
                &&& final(profile)@ == old(profile)@
            },
        },
{
    broadcast use lemma_object_view;

    if profile.as_object().is_none() {
        return Err(Refusal::ChangedNotObject);
    }
    let is_object: bool = match profile.get("patchLevel") {
        Some(patch) => patch.as_object().is_some(),
        None => {
            let none: Vec<(String, Json)> = Vec::new();
            assert(entries_view(none@) == Seq::<(Seq<char>, JsonView)>::empty());
            let mut patch: Json = Json::Object(none);
            put_levels(&mut patch, system, boot, vendor);
            profile.put("patchLevel", patch);
            return Ok(());
        },
    };
    if !is_object {
        return Err(Refusal::SelectedPatchNotObject);
    }
    match profile.get_mut("patchLevel") {
        Some(patch) => {
            put_levels(patch, system, boot, vendor);
        },
        None => {},
    }
    Ok(())
}

/// Replaces the patch levels of the selected profile. Where that is refused, the
/// config stays as it is.
pub fn update_patch_levels(
    config: &mut Json,
    configured: &Result<String, String>,
    system: String,
    boot: String,
    vendor: String,
) -> (r: Result<(), EngineError>)
    ensures
        match updated_levels(
            old(config)@,
            setting_of(*configured),
            system@,
            boot@,
            vendor@,
        ) {
            Ok(after) => final(config)@ == after && r is Ok,
            Err(e) => final(config)@ == old(config)@ && done(r) == Err::<
                (),
                Refusal<Seq<char>>,
            >(e),
        },
{
    match selected_profile_name(config, configured) {
        Err(e) => Err(e),
        Ok(selected) => {
            let is_object: bool = match profiles(config) {
                Some(profiles) => match find_entry(profiles, selected.as_str()) {
                    Some(profile) => match profile {
                        Json::Object(fields) => {
                            broadcast use lemma_object_view;

                            match find_entry(fields, "patchLevel") {
                                Some(patch) => if patch.as_object().is_none() {
                                    return Err(Refusal::SelectedPatchNotObject);
                                },
                                None => {},
                            }
                            true
                        },
                        _ => false,
                    },
                    None => false,
                },
                None => false,
            };
            if !is_object {
                return Err(Refusal::ChangedNotObject);
            }
            match config.get_mut("profiles") {
                Some(profiles) => match profiles.get_mut(selected.as_str()) {
                    Some(profile) => change_profile_levels(profile, system, boot, vendor),
                    None => Err(Refusal::ChangedNotObject),
                },
                None => Err(Refusal::ChangedNotObject),
            }
        },
    }
}

/// Which profiles there are, and which one is selected.
#[derive(Debug, PartialEq, Eq)]
pub struct ProfileStatus {
    pub available: bool,
    pub profiles: Vec<String>,
    pub selected: Option<String>,
    pub automatic: bool,
}

/// What a profile status says.
pub ghost struct StatusView {
    pub available: bool,
    pub profiles: Seq<Seq<char>>,
    pub selected: Option<Seq<char>>,
    pub automatic: bool,
}

impl View for ProfileStatus {
    type V = StatusView;

    open spec fn view(&self) -> StatusView {
        StatusView {
            available: self.available,
            profiles: texts(self.profiles@),
            selected: text_option(self.selected),
            automatic: self.automatic,
        }
    }
}

/// The names of the profiles, in the order of the document.
pub open spec fn profile_names(profiles: Seq<(Seq<char>, JsonView)>) -> Seq<Seq<char>> {
    Seq::new(profiles.len(), |i: int| profiles[i].0)
}

/// The status of a config: a single profile is selected of itself, and of several
/// the configured one, where it exists.
pub open spec fn status_of(
    config: JsonView,
    configured: Seq<char>,
    packages: Map<Seq<char>, u32>,
) -> Result<StatusView, Refusal<Seq<char>>> {
    match config_fault(config, packages) {
        Some(e) => Err(e),
        None => {
            let profiles = profiles_or_none(config);
            Ok(
                StatusView {
                    available: true,
                    profiles: profile_names(profiles),
                    selected: if profiles.len() == 1 {
                        Some(profiles[0].0)
                    } else if lookup(profiles, configured) is Some {
                        Some(configured)
                    } else {
                        None
                    },
                    automatic: profiles.len() == 1,
                },
            )
        },
    }
}

/// The status of a config.
pub fn profile_status_for(config: &Json, configured: &str, packages: &PackageUids) -> (r: Result<
    ProfileStatus,
    EngineError,
>)
    ensures
        status_of(config@, configured@, packages@) == match r {
            Ok(status) => Ok(status@),
            Err(e) => Err(e@),
        },
{
    match validate_teesim_config(config, packages) {
        Err(e) => {
            return Err(e);
        },
        Ok(()) => {},
    }
    match profiles(config) {
        None => Err(Refusal::ProfilesNotObject),
        Some(profiles) => {
            let mut names: Vec<String> = Vec::new();
            let mut i: usize = 0;
            while i < profiles.len()
                invariant
                    i <= profiles.len(),
                    names@.len() == i,
                    forall|k: int| 0 <= k < i ==> (#[trigger] names@[k])@ == profiles@[k].0@,
                decreases profiles.len() - i,
            {
                names.push(profiles[i].0.clone());
                i += 1;
            }
            assert(texts(names@) == profile_names(entries_view(profiles@)));
            let automatic: bool = names.len() == 1;
            let selected: Option<String> = if automatic {
                Some(names[0].clone())
            } else if find_entry(profiles, configured).is_some() {
                Some(configured.to_owned())
            } else {
                None
            };
            Ok(ProfileStatus { available: true, profiles: names, selected, automatic })
        },
    }
}

/// Changing a profile leaves the selection as it is.
proof fn lemma_selection_stays(
    config: JsonView,
    configured: Setting,
    name: Seq<char>,
    profile: JsonView,
)
    requires
        config is Object,
        profiles_of(config) is Some,
        lookup(profiles_of(config)->0, name) is Some,
    ensures
        profiles_of(with_profile(config, name, profile)) == Some(
            with_entry(profiles_of(config)->0, name, profile),
        ),
        lookup(profiles_or_none(with_profile(config, name, profile)), name) == Some(profile),
        selected_name(with_profile(config, name, profile), configured) == selected_name(
            config,
            configured,
        ),
{
    let before = profiles_of(config)->0;
    let after = with_entry(before, name, profile);
    law_entry_is_read_back(config->Object_0, "profiles"@, JsonView::Object(after), name);
    law_entry_is_read_back(before, name, profile, name);
    lemma_replaced_entry(before, name, profile);
    if before.len() == 1 {
        assert(after[0].0 == before[0].0);
    }
    match configured {
        Ok(other) => {
            law_entry_is_read_back(before, name, profile, other);
        },
        Err(_) => {},
    }
}

/// A selected name is the name of a profile.
proof fn lemma_selected_exists(config: JsonView, configured: Setting)
    requires
        selected_name(config, configured) is Ok,
    ensures
        config is Object,
        profiles_of(config) is Some,
        lookup(profiles_of(config)->0, selected_name(config, configured)->Ok_0) is Some,
{
}

/// Only the changed profile changes: every other profile, and every field of the
/// config but its profiles, stays as it is.
pub proof fn law_other_profiles_stay(
    config: JsonView,
    name: Seq<char>,
    profile: JsonView,
    other: Seq<char>,
    field: Seq<char>,
)
    requires
        config is Object,
        profiles_of(config) is Some,
    ensures
        other != name ==> lookup(profiles_or_none(with_profile(config, name, profile)), other)
            == lookup(profiles_or_none(config), other),
        lookup(profiles_or_none(with_profile(config, name, profile)), name) == Some(profile),
        field != "profiles"@ ==> with_profile(config, name, profile).field(field) == config.field(
            field,
        ),
{
    let before = profiles_of(config)->0;
    let after = with_entry(before, name, profile);
    law_entry_is_read_back(config->Object_0, "profiles"@, JsonView::Object(after), field);
    law_entry_is_read_back(before, name, profile, other);
}

/// Replacing the apps of a profile changes that profile's app list and nothing else:
/// unknown fields of the config, other profiles, and other fields of the profile
/// stay.
pub proof fn law_update_changes_apps_only(
    config: JsonView,
    entries: Seq<Seq<char>>,
    selected: Seq<char>,
    packages: Map<Seq<char>, u32>,
    other: Seq<char>,
    field: Seq<char>,
)
    requires
        updated_apps(config, entries, selected, packages) is Ok,
        lookup(profiles_or_none(config), selected) matches Some(profile) ==> profile is Object,
    ensures
        ({
            let after = updated_apps(config, entries, selected, packages)->Ok_0;
            let old_profile = lookup(profiles_or_none(config), selected)->0;
            let new_profile = lookup(profiles_or_none(after), selected)->0;
            &&& lookup(profiles_or_none(after), selected) is Some
            &&& apps_of(new_profile) == text_array(entries)->Array_0
            &&& field != "apps"@ ==> new_profile.field(field) == old_profile.field(field)
            &&& other != selected ==> lookup(profiles_or_none(after), other) == lookup(
                profiles_or_none(config),
                other,
            )
            &&& field != "profiles"@ ==> after.field(field) == config.field(field)
        }),
{
    let old_profile = lookup(profiles_or_none(config), selected)->0;
    let new_profile = with_apps(old_profile, entries);
    law_other_profiles_stay(config, selected, new_profile, other, field);
    law_entry_is_read_back(old_profile->Object_0, "apps"@, text_array(entries), field);
}

/// Apps that another profile claims are refused, and the refusal names each of them.
pub proof fn law_taken_apps_are_refused(
    config: JsonView,
    entries: Seq<Seq<char>>,
    selected: Seq<char>,
    packages: Map<Seq<char>, u32>,
    i: int,
)
    requires
        0 <= i < entries.len(),
        is_taken(profiles_or_none(config), selected, entries[i], packages),
    ensures
        updated_apps(config, entries, selected, packages) == Err::<JsonView, Refusal<Seq<char>>>(
            Refusal::AppsAssigned {
                apps: joined(
                    taken_entries(profiles_or_none(config), selected, entries, packages),
                    ", "@,
                ),
            },
        ),
        taken_entries(profiles_or_none(config), selected, entries, packages).contains(entries[i]),
{
    lemma_taken_is_listed(profiles_or_none(config), selected, entries, packages, i);
}

proof fn lemma_taken_is_listed(
    profiles: Seq<(Seq<char>, JsonView)>,
    selected: Seq<char>,
    entries: Seq<Seq<char>>,
    packages: Map<Seq<char>, u32>,
    i: int,
)
    requires
        0 <= i < entries.len(),
        is_taken(profiles, selected, entries[i], packages),
    ensures
        taken_entries(profiles, selected, entries, packages).contains(entries[i]),
    decreases entries.len(),
{
    let taken = taken_entries(profiles, selected, entries, packages);
    let rest = taken_entries(profiles, selected, entries.drop_last(), packages);
    if i == entries.len() - 1 {
        assert(taken.last() == entries[i]);
    } else {
        lemma_taken_is_listed(profiles, selected, entries.drop_last(), packages, i);
        let k = choose|k: int| 0 <= k < rest.len() && rest[k] == entries[i];
        assert(taken[k] == entries[i]);
    }
}

proof fn lemma_text_array(entries: Seq<Seq<char>>)
    ensures
        text_items(text_array(entries)->Array_0) == entries,
        text_array(entries).wf(),
        forall|depth: nat| depth > 0 ==> #[trigger] text_array(entries).depth_within(depth),
    decreases entries.len(),
{
    let items = text_array(entries)->Array_0;
    if entries.len() > 0 {
        lemma_text_array(entries.drop_last());
        assert(items.drop_last() == text_array(entries.drop_last())->Array_0);
        assert(entries == entries.drop_last().push(entries.last()));
    } else {
        assert(text_items(items) == entries);
    }
    assert(text_array(entries).wf()) by {
        reveal_with_fuel(JsonView::wf, 2);
    }
    assert forall|depth: nat| depth > 0 implies #[trigger] text_array(entries).depth_within(
        depth,
    ) by {
        reveal_with_fuel(JsonView::depth_within, 2);
    }
}

/// A changed profile leaves a config well-formed and within its depth.
proof fn lemma_with_profile_keeps(
    config: JsonView,
    name: Seq<char>,
    profile: JsonView,
    depth: nat,
)
    requires
        config is Object,
        config.wf(),
        config.depth_within(depth),
        profiles_of(config) is Some,
        depth >= 2,
        profile.wf(),
        profile.depth_within((depth - 2) as nat),
    ensures
        with_profile(config, name, profile).wf(),
        with_profile(config, name, profile).depth_within(depth),
{
    lemma_field_keeps(config, "profiles"@, depth);
    let before = config.field("profiles"@)->0;
    lemma_with_field_keeps(before, name, profile, (depth - 1) as nat);
    lemma_with_field_keeps(config, "profiles"@, before.with_field(name, profile), depth);
}

/// The selected profile has the apps that it was given.
pub proof fn lemma_new_apps(
    config: JsonView,
    entries: Seq<Seq<char>>,
    configured: Setting,
    packages: Map<Seq<char>, u32>,
)
    requires
        profiles_are_objects(config),
        updated_selected_apps(config, entries, configured, packages) is Ok,
    ensures
        selected_object(
            updated_selected_apps(config, entries, configured, packages)->Ok_0,
            configured,
        ) matches Ok(profile) && text_items(apps_of(profile)) == entries,
{
    let name = selected_name(config, configured)->Ok_0;
    lemma_selected_exists(config, configured);
    lemma_lookup_at(profiles_or_none(config), name);
    let profile = lookup(profiles_or_none(config), name)->0;
    lemma_text_array(entries);
    lemma_selection_stays(config, configured, name, with_apps(profile, entries));
    law_entry_is_read_back(profile->Object_0, "apps"@, text_array(entries), "apps"@);
}

/// Replacing the apps of the selected profile keeps a config well-formed and within its
/// depth, and the new apps are read back.
pub proof fn lemma_apps_read_back(
    config: JsonView,
    entries: Seq<Seq<char>>,
    configured: Setting,
    packages: Map<Seq<char>, u32>,
    depth: nat,
)
    requires
        config.wf(),
        config.depth_within(depth),
        depth >= 4,
        profiles_are_objects(config),
        updated_selected_apps(config, entries, configured, packages) is Ok,
    ensures
        ({
            let after = updated_selected_apps(config, entries, configured, packages)->Ok_0;
            &&& after.wf()
            &&& after.depth_within(depth)
            &&& selected_object(after, configured) matches Ok(profile) && text_items(
                apps_of(profile),
            ) == entries
        }),
{
    let name = selected_name(config, configured)->Ok_0;
    lemma_selected_exists(config, configured);
    lemma_lookup_at(profiles_or_none(config), name);
    let before = config.field("profiles"@)->0;
    let profile = lookup(profiles_or_none(config), name)->0;
    lemma_field_keeps(config, "profiles"@, depth);
    lemma_field_keeps(before, name, (depth - 1) as nat);
    lemma_text_array(entries);
    let changed = with_apps(profile, entries);
    assert(text_array(entries).depth_within((depth - 3) as nat));
    lemma_with_field_keeps(profile, "apps"@, text_array(entries), (depth - 2) as nat);
    lemma_with_profile_keeps(config, name, changed, depth);
    lemma_new_apps(config, entries, configured, packages);
}

/// Replacing the patch levels of the selected profile keeps a config well-formed and
/// within its depth, and the new levels are read back.
pub proof fn lemma_levels_read_back(
    config: JsonView,
    configured: Setting,
    system: Seq<char>,
    boot: Seq<char>,
    vendor: Seq<char>,
    depth: nat,
)
    requires
        config.wf(),
        config.depth_within(depth),
        depth >= 4,
        updated_levels(config, configured, system, boot, vendor) is Ok,
    ensures
        ({
            let after = updated_levels(config, configured, system, boot, vendor)->Ok_0;
            &&& after.wf()
            &&& after.depth_within(depth)
            &&& selected_object(after, configured) matches Ok(profile) && patch_level(
                profile,
                "system"@,
            ) == system && patch_level(profile, "boot"@) == boot && patch_level(
                profile,
                "vendor"@,
            ) == vendor
        }),
{
    let name = selected_name(config, configured)->Ok_0;
    lemma_selected_exists(config, configured);
    let before = config.field("profiles"@)->0;
    let profile = lookup(profiles_or_none(config), name)->0;
    lemma_field_keeps(config, "profiles"@, depth);
    lemma_field_keeps(before, name, (depth - 1) as nat);
    let empty = JsonView::Object(seq![]);
    let patch = match profile.field("patchLevel"@) {
        Some(patch) => patch,
        None => empty,
    };
    let d = (depth - 3) as nat;
    if profile.field("patchLevel"@) is Some {
        lemma_field_keeps(profile, "patchLevel"@, (depth - 2) as nat);
    } else {
        assert(empty.wf() && empty.depth_within(d));
    }
    let one = patch.with_field("system"@, JsonView::Text(system));
    let two = one.with_field("boot"@, JsonView::Text(boot));
    let three = two.with_field("vendor"@, JsonView::Text(vendor));
    lemma_with_field_keeps(patch, "system"@, JsonView::Text(system), d);
    lemma_with_field_keeps(one, "boot"@, JsonView::Text(boot), d);
    lemma_with_field_keeps(two, "vendor"@, JsonView::Text(vendor), d);
    let changed = profile.with_field("patchLevel"@, three);
    lemma_with_field_keeps(profile, "patchLevel"@, three, (depth - 2) as nat);
    lemma_with_profile_keeps(config, name, changed, depth);
    lemma_selection_stays(config, configured, name, changed);
    law_entry_is_read_back(profile->Object_0, "patchLevel"@, three, "patchLevel"@);
    reveal_strlit("system");
    reveal_strlit("boot");
    reveal_strlit("vendor");
    assert("system"@.len() != "boot"@.len());
    assert("system"@[0] != "vendor"@[0]);
    assert("boot"@.len() != "vendor"@.len());
    law_entry_is_read_back(patch->Object_0, "system"@, JsonView::Text(system), "system"@);
    law_entry_is_read_back(one->Object_0, "boot"@, JsonView::Text(boot), "system"@);
    law_entry_is_read_back(two->Object_0, "vendor"@, JsonView::Text(vendor), "system"@);
    law_entry_is_read_back(two->Object_0, "vendor"@, JsonView::Text(vendor), "boot"@);
}

/// Replacing the patch levels of the selected profile changes the three levels and
/// nothing else: unknown fields of the config, other profiles, other fields of the
/// profile, and other fields of its patch level stay.
pub proof fn law_update_changes_levels_only(
    config: JsonView,
    configured: Setting,
    levels: (Seq<char>, Seq<char>, Seq<char>),
    other: Seq<char>,
    field: Seq<char>,
)
    requires
        updated_levels(config, configured, levels.0, levels.1, levels.2) is Ok,
    ensures
        ({
            let selected = selected_name(config, configured)->Ok_0;
            let after = updated_levels(config, configured, levels.0, levels.1, levels.2)->Ok_0;
            let old_profile = lookup(profiles_or_none(config), selected)->0;
            let new_profile = lookup(profiles_or_none(after), selected)->0;
            let old_patch = old_profile.field("patchLevel"@);
            let new_patch = new_profile.field("patchLevel"@)->0;
            &&& selected_name(config, configured) is Ok
            &&& lookup(profiles_or_none(config), selected) is Some
            &&& lookup(profiles_or_none(after), selected) is Some
            &&& new_profile.field("patchLevel"@) is Some
            &&& patch_level(new_profile, "system"@) == levels.0
            &&& patch_level(new_profile, "boot"@) == levels.1
            &&& patch_level(new_profile, "vendor"@) == levels.2
            &&& field != "system"@ && field != "boot"@ && field != "vendor"@ ==> new_patch.field(
                field,
            ) == match old_patch {
                Some(patch) => patch.field(field),
                None => None,
            }
            &&& field != "patchLevel"@ ==> new_profile.field(field) == old_profile.field(field)
            &&& other != selected ==> lookup(profiles_or_none(after), other) == lookup(
                profiles_or_none(config),
                other,
            )
            &&& field != "profiles"@ ==> after.field(field) == config.field(field)
        }),
{
    let name = selected_name(config, configured)->Ok_0;
    lemma_selected_exists(config, configured);
    let profile = lookup(profiles_or_none(config), name)->0;
    let patch = match profile.field("patchLevel"@) {
        Some(patch) => patch,
        None => JsonView::Object(seq![]),
    };
    let one = patch.with_field("system"@, JsonView::Text(levels.0));
    let two = one.with_field("boot"@, JsonView::Text(levels.1));
    let three = two.with_field("vendor"@, JsonView::Text(levels.2));
    let changed = profile.with_field("patchLevel"@, three);
    law_other_profiles_stay(config, name, changed, other, field);
    law_entry_is_read_back(profile->Object_0, "patchLevel"@, three, field);
    law_entry_is_read_back(profile->Object_0, "patchLevel"@, three, "patchLevel"@);
    reveal_strlit("system");
    reveal_strlit("boot");
    reveal_strlit("vendor");
    assert("system"@.len() != "boot"@.len());
    assert("system"@[0] != "vendor"@[0]);
    assert("boot"@.len() != "vendor"@.len());
    law_entry_is_read_back(patch->Object_0, "system"@, JsonView::Text(levels.0), "system"@);
    law_entry_is_read_back(one->Object_0, "boot"@, JsonView::Text(levels.1), "system"@);
    law_entry_is_read_back(two->Object_0, "vendor"@, JsonView::Text(levels.2), "system"@);
    law_entry_is_read_back(two->Object_0, "vendor"@, JsonView::Text(levels.2), "boot"@);
    law_entry_is_read_back(patch->Object_0, "system"@, JsonView::Text(levels.0), field);
    law_entry_is_read_back(one->Object_0, "boot"@, JsonView::Text(levels.1), field);
    law_entry_is_read_back(two->Object_0, "vendor"@, JsonView::Text(levels.2), field);
}

/// The status of a config shows the profile as selected that the requests for the
/// selected profile take, and none where they are refused.
pub proof fn law_status_shows_the_selection(
    config: JsonView,
    configured: Seq<char>,
    packages: Map<Seq<char>, u32>,
)
    requires
        config_fault(config, packages) is None,
    ensures
        status_of(config, configured, packages) matches Ok(status) && match selected_name(
            config,
            Ok(configured),
        ) {
            Ok(name) => status.selected == Some(name) && status.profiles.contains(name),
            Err(_) => status.selected is None,
        },
{
    law_valid_profiles(config, packages, 0);
    let profiles = profiles_or_none(config);
    let names = profile_names(profiles);
    assert(names.len() == profiles.len());
    assert(names[0] == profiles[0].0);
    lemma_lookup_at(profiles, configured);
    if configured.len() == 0 {
        assert forall|k: int| 0 <= k < profiles.len() implies #[trigger] profiles[k].0
            != configured by {
            law_valid_profiles(config, packages, k);
        }
    }
    if lookup(profiles, configured) is Some {
        let k = choose|k: int|
            0 <= k < profiles.len() && #[trigger] profiles[k].0 == configured && Some(
                profiles[k].1,
            ) == lookup(profiles, configured);
        assert(names[k] == configured);
    }
}

} // verus!
