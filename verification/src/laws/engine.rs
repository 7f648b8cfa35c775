//! Laws of the engines: which one is installed, and what its files say.
use crate::automation::target::AUTO_ADDED;
use crate::codec::{parsed_json, pretty_json};
use crate::config::{config_fault, law_valid_profiles, profiles_of};
use crate::device::{DataFile, Device, ModuleDir, Modules, TextFile};
use crate::engine::{
    accepted_config, choice_check, config_path, config_with_apps, config_with_levels, data_answer,
    device_levels, device_status, device_targets, engine_of, home_of, is_present, keybox_file,
    legacy_levels, legacy_patch_path, levels_answer, normal_levels, plan_answer, profile_keybox,
    selection_check, stored_config, target_plan, Engine, Levels, PlanView, TargetPlan,
};
use crate::error::{text_answer, texts_answer, EngineError, Refusal};
use crate::json::{lemma_lookup_at, lookup, JsonView};
use crate::laws::profiles::{has_profile, is_first, law_selected_profile};
use crate::patch::{legacy_dates, normal_patch_or};
use crate::profiles::{
    patch_level, selected_name, selected_object, setting_of, status_of, text_items, updated_levels,
    updated_selected_apps, Setting, StatusView,
};
use crate::targets::{file_targets, list_text, normal_targets, trimmed_entries, TARGET_MIRROR};
use crate::text::{lines_of, texts};
use vstd::prelude::*;

verus! {

/// TEESimulator is in a directory if and only if that is one, is not to be removed, and
/// its properties have the line `id=teesim`.
pub open spec fn holds_teesim(dir: ModuleDir) -> bool {
    &&& dir.is_dir
    &&& !dir.removed
    &&& dir.properties matches Some(content) && exists|i: int|
        0 <= i < lines_of(content@).len() && #[trigger] lines_of(content@)[i] == "id=teesim"@
}

proof fn lemma_present(dir: ModuleDir)
    ensures
        is_present(dir) <==> holds_teesim(dir),
{
    if dir.properties is Some {
        let lines = lines_of(dir.properties->0@);
        if lines.contains("id=teesim"@) {
            let i = choose|i: int| 0 <= i < lines.len() && lines[i] == "id=teesim"@;
            assert(lines[i] == "id=teesim"@);
        }
    }
}

/// TEESimulator is the engine if and only if it is in one of its two directories; a
/// disabled module counts.
pub proof fn law_engine(modules: Modules)
    ensures
        engine_of(modules) == Engine::TeeSimulatorV4 <==> holds_teesim(modules.teesim)
            || holds_teesim(modules.teesim_update),
{
    lemma_present(modules.teesim);
    lemma_present(modules.teesim_update);
}

/// An engine is installed in the first of its two directories that holds it, and in none
/// where neither does.
pub proof fn law_module_directories(modules: Modules)
    ensures
        ({
            let first = modules.tricky.is_dir && !modules.tricky.removed;
            let second = modules.tricky_hidden.is_dir && !modules.tricky_hidden.removed;
            let home = home_of(Engine::TrickyStore, modules);
            &&& first ==> home == Some(("/data/adb/modules/tricky_store"@, modules.tricky))
            &&& !first && second ==> home == Some(
                ("/data/adb/modules/.tricky_store"@, modules.tricky_hidden),
            )
            &&& !first && !second ==> home is None
        }),
        ({
            let first = holds_teesim(modules.teesim);
            let second = holds_teesim(modules.teesim_update);
            let home = home_of(Engine::TeeSimulatorV4, modules);
            &&& first ==> home == Some(("/data/adb/modules/teesim"@, modules.teesim))
            &&& !first && second ==> home == Some(
                ("/data/adb/modules_update/teesim"@, modules.teesim_update),
            )
            &&& !first && !second ==> home is None
        }),
{
    lemma_present(modules.teesim);
    lemma_present(modules.teesim_update);
}

/// The config of a device is what its file is read as, where that is accepted; else the
/// refusal says whether the file is missing, cannot be read, is no JSON, or why the config
/// is not accepted.
pub proof fn law_stored_config(file: DataFile, packages: Map<Seq<char>, u32>)
    ensures
        ({
            let path = "/data/adb/teesim"@ + "/config.json"@;
            let stored = stored_config(file, packages);
            match file {
                DataFile::Missing => stored == Err::<JsonView, Refusal<Seq<char>>>(
                    Refusal::ConfigMissing { path },
                ),
                DataFile::Unreadable => stored == Err::<JsonView, Refusal<Seq<char>>>(
                    Refusal::Unreadable { path },
                ),
                DataFile::Data(content) => match parsed_json(content@) {
                    None => stored == Err::<JsonView, Refusal<Seq<char>>>(
                        Refusal::InvalidConfig { path },
                    ),
                    Some(config) => {
                        &&& config_fault(config, packages) is None <==> stored == Ok::<
                            JsonView,
                            Refusal<Seq<char>>,
                        >(config)
                        &&& config_fault(config, packages) matches Some(e) ==> stored == Err::<
                            JsonView,
                            Refusal<Seq<char>>,
                        >(e)
                    },
                },
            }
        }),
{
}

/// A document that was read from a path is taken as a config if and only if it is
/// accepted, and one that could not be read is refused with its path.
pub proof fn law_accepting(
    config: JsonView,
    path: Seq<char>,
    packages: Map<Seq<char>, u32>,
)
    ensures
        accepted_config(None, path, packages) == Err::<JsonView, Refusal<Seq<char>>>(
            Refusal::InvalidConfig { path },
        ),
        match config_fault(config, packages) {
            Some(e) => accepted_config(Some(config), path, packages) == Err::<
                JsonView,
                Refusal<Seq<char>>,
            >(e),
            None => accepted_config(Some(config), path, packages) == Ok::<
                JsonView,
                Refusal<Seq<char>>,
            >(config),
        },
{
}

/// The files of the engines have fixed places.
pub proof fn law_places()
    ensures
        TARGET_MIRROR@ == "/data/adb/tricky_store/target.txt"@,
        AUTO_ADDED@ == "/data/adb/tricky_store/.automation/auto_added.txt"@,
        config_path() == "/data/adb/teesim/config.json"@,
        legacy_patch_path() == "/data/adb/tricky_store/security_patch.txt"@,
{
    reveal_strlit("/data/adb/teesim");
    reveal_strlit("/config.json");
    reveal_strlit("/data/adb/teesim/config.json");
    assert(config_path() == "/data/adb/teesim/config.json"@);
    reveal_strlit("/data/adb/tricky_store");
    reveal_strlit("/security_patch.txt");
    reveal_strlit("/data/adb/tricky_store/security_patch.txt");
    assert(legacy_patch_path() == "/data/adb/tricky_store/security_patch.txt"@);
}

/// The keybox of TrickyStore is one file, whatever else is on the device.
pub proof fn law_keybox_of_tricky_store(device: Device)
    ensures
        keybox_file(Engine::TrickyStore, device) == Ok::<Seq<char>, Refusal<Seq<char>>>(
            "/data/adb/tricky_store/keybox.xml"@,
        ),
{
    reveal_strlit("/data/adb/tricky_store/keybox.xml");
    reveal_strlit("/data/adb/tricky_store");
    reveal_strlit("/keybox.xml");
    assert(crate::engine::TRICKY_DATA@ + "/keybox.xml"@ == "/data/adb/tricky_store/keybox.xml"@);
}

/// The keybox file of TEESimulator is the one that the selected profile names, in the data
/// directory: path and selected profile belong together, however many profiles there are.
pub proof fn law_keybox_of_the_selected_profile(
    device: Device,
    config: JsonView,
    profiles: Seq<(Seq<char>, JsonView)>,
    i: int,
    keybox: Seq<char>,
)
    requires
        stored_config(device.config, device.packages@) == Ok::<JsonView, Refusal<Seq<char>>>(
            config,
        ),
        config.field("profiles"@) == Some(JsonView::Object(profiles)),
        is_first(profiles, i),
        selected_name(config, setting_of(device.configured)) == Ok::<
            Seq<char>,
            Refusal<Seq<char>>,
        >(profiles[i].0),
        profiles[i].1.field("keybox"@) == Some(JsonView::Text(keybox)),
    ensures
        keybox_file(Engine::TeeSimulatorV4, device) == Ok::<Seq<char>, Refusal<Seq<char>>>(
            "/data/adb/teesim/"@ + keybox,
        ),
{
    law_selected_profile(config, profiles, setting_of(device.configured), i);
    reveal_strlit("/data/adb/teesim");
    reveal_strlit("/data/adb/teesim/");
    reveal_strlit("/");
    assert(crate::engine::TEESIM_DATA@ + "/"@ == "/data/adb/teesim/"@);
}

/// TEESimulator has a keybox file if and only if its config is accepted and a profile is
/// selected in it; else the refusal is that of the config, or of the selection.
pub proof fn law_keybox_needs_a_selection(device: Device)
    ensures
        match stored_config(device.config, device.packages@) {
            Err(e) => keybox_file(Engine::TeeSimulatorV4, device) == Err::<
                Seq<char>,
                Refusal<Seq<char>>,
            >(e),
            Ok(config) => match selected_name(config, setting_of(device.configured)) {
                Err(e) => keybox_file(Engine::TeeSimulatorV4, device) == Err::<
                    Seq<char>,
                    Refusal<Seq<char>>,
                >(e),
                Ok(_) => keybox_file(Engine::TeeSimulatorV4, device) is Ok,
            },
        },
{
    if stored_config(device.config, device.packages@) is Ok {
        let config = stored_config(device.config, device.packages@)->Ok_0;
        if selected_name(config, setting_of(device.configured)) is Ok {
            let name = selected_name(config, setting_of(device.configured))->Ok_0;
            lemma_selected_is_valid(config, device.packages@, name);
        }
    }
}

proof fn lemma_selected_is_valid(
    config: JsonView,
    packages: Map<Seq<char>, u32>,
    name: Seq<char>,
)
    requires
        config_fault(config, packages) is None,
        profiles_of(config) matches Some(profiles) && (lookup(profiles, name) is Some || (
        profiles.len() == 1 && profiles[0].0 == name)),
    ensures
        lookup(profiles_of(config)->0, name) matches Some(profile) && profile is Object
            && profile.field("keybox"@) matches Some(JsonView::Text(_)),
{
    let profiles = profiles_of(config)->0;
    lemma_lookup_at(profiles, name);
    if lookup(profiles, name) is None {
        assert(profiles[0].0 != name);
    }
    let k = choose|k: int|
        0 <= k < profiles.len() && #[trigger] profiles[k].0 == name && Some(profiles[k].1)
            == lookup(profiles, name);
    law_valid_profiles(config, packages, k);
}

/// The targets of a device are those of the TrickyStore file, or the apps of the selected
/// profile of TEESimulator.
pub proof fn law_targets_of_a_device(
    device: Device,
    config: JsonView,
    profiles: Seq<(Seq<char>, JsonView)>,
    i: int,
    items: Seq<JsonView>,
)
    ensures
        engine_of(device.modules) == Engine::TrickyStore ==> device_targets(device)
            == file_targets(device.target_mirror, false),
        engine_of(device.modules) == Engine::TeeSimulatorV4 && stored_config(
            device.config,
            device.packages@,
        ) == Ok::<JsonView, Refusal<Seq<char>>>(config) && config.field("profiles"@) == Some(
            JsonView::Object(profiles),
        ) && is_first(profiles, i) && selected_name(config, setting_of(device.configured)) == Ok::<
            Seq<char>,
            Refusal<Seq<char>>,
        >(profiles[i].0) && profiles[i].1.field("apps"@) == Some(JsonView::Array(items))
            ==> device_targets(device) == Ok::<Seq<Seq<char>>, Refusal<Seq<char>>>(
            text_items(items),
        ),
        engine_of(device.modules) == Engine::TeeSimulatorV4 && stored_config(
            device.config,
            device.packages@,
        ) == Ok::<JsonView, Refusal<Seq<char>>>(config) && config.field("profiles"@) == Some(
            JsonView::Object(profiles),
        ) && is_first(profiles, i) && selected_name(config, setting_of(device.configured)) == Ok::<
            Seq<char>,
            Refusal<Seq<char>>,
        >(profiles[i].0) && profiles[i].1 is Object && profiles[i].1.field("apps"@) is None
            ==> device_targets(device) == Ok::<Seq<Seq<char>>, Refusal<Seq<char>>>(seq![]),
{
    if config.field("profiles"@) == Some(JsonView::Object(profiles)) && is_first(profiles, i)
        && selected_name(config, setting_of(device.configured)) == Ok::<
        Seq<char>,
        Refusal<Seq<char>>,
    >(profiles[i].0) {
        law_selected_profile(config, profiles, setting_of(device.configured), i);
    }
}

/// What is refused of the config or of the selection of TEESimulator is refused of its
/// targets and of its patch levels too.
pub proof fn law_refusals_of_the_config_go_on(device: Device)
    requires
        engine_of(device.modules) == Engine::TeeSimulatorV4,
    ensures
        stored_config(device.config, device.packages@) matches Err(e) ==> device_targets(device)
            == Err::<Seq<Seq<char>>, Refusal<Seq<char>>>(e) && device_levels(device) == Err::<
            Levels,
            Refusal<Seq<char>>,
        >(e) && selection_check(device) == Err::<(), Refusal<Seq<char>>>(e),
        stored_config(device.config, device.packages@) matches Ok(config) ==> (selected_name(
            config,
            setting_of(device.configured),
        ) matches Err(e) ==> device_targets(device) == Err::<Seq<Seq<char>>, Refusal<Seq<char>>>(e)
            && device_levels(device) == Err::<Levels, Refusal<Seq<char>>>(e) && selection_check(
            device,
        ) == Err::<(), Refusal<Seq<char>>>(e)),
        stored_config(device.config, device.packages@) matches Ok(config) ==> (selected_name(
            config,
            setting_of(device.configured),
        ) is Ok ==> device_targets(device) is Ok && device_levels(device) is Ok
            && selection_check(device) is Ok),
{
    if stored_config(device.config, device.packages@) is Ok {
        let config = stored_config(device.config, device.packages@)->Ok_0;
        if selected_name(config, setting_of(device.configured)) is Ok {
            let name = selected_name(config, setting_of(device.configured))->Ok_0;
            lemma_selected_is_valid(config, device.packages@, name);
        }
    }
}

/// With TrickyStore nothing is asked of a config: no profile needs to be selected, any may
/// be chosen, and the status shows none.
pub proof fn law_tricky_store_needs_no_profile(device: Device, name: Seq<char>)
    requires
        engine_of(device.modules) == Engine::TrickyStore,
    ensures
        selection_check(device) is Ok,
        choice_check(device, name) is Ok,
        device_status(device, name) matches Ok(status) && !status.available && !status.automatic
            && status.selected is None && status.profiles.len() == 0,
{
}

/// No profile may always be chosen; with TEESimulator another one if and only if the
/// config is accepted and has it.
pub proof fn law_choices(device: Device, name: Seq<char>)
    requires
        engine_of(device.modules) == Engine::TeeSimulatorV4,
    ensures
        name.len() == 0 ==> choice_check(device, name) is Ok,
        name.len() > 0 ==> match stored_config(device.config, device.packages@) {
            Err(e) => choice_check(device, name) == Err::<(), Refusal<Seq<char>>>(e)
                && device_status(device, name) == Err::<StatusView, Refusal<Seq<char>>>(e),
            Ok(config) => {
                &&& config.field("profiles"@) matches Some(JsonView::Object(profiles)) && {
                    &&& has_profile(profiles, name) <==> choice_check(device, name) is Ok
                    &&& !has_profile(profiles, name) ==> choice_check(device, name) == Err::<
                        (),
                        Refusal<Seq<char>>,
                    >(Refusal::UnknownProfile { name })
                }
                &&& device_status(device, name) == status_of(config, name, device.packages@)
            },
        },
{
    if stored_config(device.config, device.packages@) is Ok {
        let config = stored_config(device.config, device.packages@)->Ok_0;
        law_valid_profiles(config, device.packages@, 0);
        let profiles = profiles_of(config)->0;
        lemma_lookup_at(profiles, name);
        if lookup(profiles, name) is Some {
            let k = choose|k: int|
                0 <= k < profiles.len() && #[trigger] profiles[k].0 == name && Some(profiles[k].1)
                    == lookup(profiles, name);
            assert(profiles[k].0 == name);
        }
    }
}

/// TrickyStore is written the trimmed entries, comments among them, and no config.
/// TEESimulator is written the config with the normalised entries, and a line feed behind
/// it, and then the same entries for TrickyStore; what the change of the config is refused
/// for, the request is refused for.
pub proof fn law_target_plans(device: Device, entries: Seq<Seq<char>>)
    ensures
        engine_of(device.modules) == Engine::TrickyStore ==> target_plan(device, entries) == Ok::<
            PlanView,
            Refusal<Seq<char>>,
        >(PlanView { config: None, mirror: list_text(trimmed_entries(entries, true)) }),
        engine_of(device.modules) == Engine::TeeSimulatorV4 ==> match config_with_apps(
            device,
            normal_targets(entries),
        ) {
            Err(e) => target_plan(device, entries) == Err::<PlanView, Refusal<Seq<char>>>(e),
            Ok(config) => target_plan(device, entries) matches Ok(plan) && plan.mirror == list_text(
                normal_targets(entries),
            ) && plan.config == Some(pretty_json(config).push(10)),
        },
{
}

/// A change of the config is made to the stored one, for the selected profile, and is
/// refused where the config is not accepted before it, where the change is refused, or
/// where the config would not be accepted after it.
pub proof fn law_changes_of_the_config(
    device: Device,
    entries: Seq<Seq<char>>,
    levels: Levels,
)
    ensures
        match stored_config(device.config, device.packages@) {
            Err(e) => config_with_apps(device, entries) == Err::<JsonView, Refusal<Seq<char>>>(e),
            Ok(config) => match updated_selected_apps(
                config,
                entries,
                setting_of(device.configured),
                device.packages@,
            ) {
                Err(e) => config_with_apps(device, entries) == Err::<JsonView, Refusal<Seq<char>>>(
                    e,
                ),
                Ok(after) => match config_fault(after, device.packages@) {
                    Some(e) => config_with_apps(device, entries) == Err::<
                        JsonView,
                        Refusal<Seq<char>>,
                    >(e),
                    None => config_with_apps(device, entries) == Ok::<
                        JsonView,
                        Refusal<Seq<char>>,
                    >(after),
                },
            },
        },
        match normal_levels(levels) {
            Err(e) => config_with_levels(device, levels) == Err::<JsonView, Refusal<Seq<char>>>(e),
            Ok((system, boot, vendor)) => match stored_config(device.config, device.packages@) {
                Err(e) => config_with_levels(device, levels) == Err::<
                    JsonView,
                    Refusal<Seq<char>>,
                >(e),
                Ok(config) => match updated_levels(
                    config,
                    setting_of(device.configured),
                    system,
                    boot,
                    vendor,
                ) {
                    Err(e) => config_with_levels(device, levels) == Err::<
                        JsonView,
                        Refusal<Seq<char>>,
                    >(e),
                    Ok(after) => match config_fault(after, device.packages@) {
                        Some(e) => config_with_levels(device, levels) == Err::<
                            JsonView,
                            Refusal<Seq<char>>,
                        >(e),
                        None => config_with_levels(device, levels) == Ok::<
                            JsonView,
                            Refusal<Seq<char>>,
                        >(after),
                    },
                },
            },
        },
{
}

/// The three levels are brought into form each by itself, and the first that is not
/// allowed is the one that is refused.
pub proof fn law_levels_by_themselves(levels: Levels)
    ensures
        normal_levels(levels) matches Ok((system, boot, vendor)) ==> {
            &&& normal_patch_or(levels.0) == Ok::<Seq<char>, Refusal<Seq<char>>>(system)
            &&& normal_patch_or(levels.1) == Ok::<Seq<char>, Refusal<Seq<char>>>(boot)
            &&& normal_patch_or(levels.2) == Ok::<Seq<char>, Refusal<Seq<char>>>(vendor)
        },
        normal_levels(levels) matches Err(e) ==> {
            ||| normal_patch_or(levels.0) == Err::<Seq<char>, Refusal<Seq<char>>>(e)
            ||| normal_patch_or(levels.0) is Ok && normal_patch_or(levels.1) == Err::<
                Seq<char>,
                Refusal<Seq<char>>,
            >(e)
            ||| normal_patch_or(levels.0) is Ok && normal_patch_or(levels.1) is Ok
                && normal_patch_or(levels.2) == Err::<Seq<char>, Refusal<Seq<char>>>(e)
        },
        normal_patch_or(levels.0) is Ok && normal_patch_or(levels.1) is Ok && normal_patch_or(
            levels.2,
        ) is Ok ==> normal_levels(levels) is Ok,
{
}

/// A legacy file gives its levels, and `no` for each that it does not; a missing file gives
/// `no` for all three.
pub proof fn law_legacy_levels(file: TextFile)
    ensures
        match file {
            TextFile::Missing { .. } => legacy_levels(file) == Ok::<Levels, Refusal<Seq<char>>>(
                ("no"@, "no"@, "no"@),
            ),
            TextFile::Unreadable { words } => legacy_levels(file) matches Err(e)
                && e == (Refusal::FileFailed {
                path: "/data/adb/tricky_store/security_patch.txt"@,
                words: words@,
            }),
            TextFile::Text(content) => legacy_levels(file) matches Ok(levels) && {
                let (system, boot, vendor) = legacy_dates(content@);
                &&& system.len() > 0 ==> levels.0 == system
                &&& boot.len() > 0 ==> levels.1 == boot
                &&& vendor.len() > 0 ==> levels.2 == vendor
                &&& system.len() == 0 ==> levels.0 == "no"@
                &&& boot.len() == 0 ==> levels.1 == "no"@
                &&& vendor.len() == 0 ==> levels.2 == "no"@
            },
        },
{
    law_places();
}

/// The levels of TrickyStore are those of its legacy file, and those of TEESimulator stand
/// in the selected profile, each under its own name.
pub proof fn law_levels_of_a_device(
    device: Device,
    config: JsonView,
    profiles: Seq<(Seq<char>, JsonView)>,
    i: int,
)
    ensures
        engine_of(device.modules) == Engine::TrickyStore ==> match device.security_patch {
            TextFile::Text(content) => device_levels(device) == Ok::<Levels, Refusal<Seq<char>>>(
                legacy_dates(content@),
            ),
            TextFile::Missing { words } => device_levels(device) matches Err(e)
                && e == (Refusal::FileFailed {
                path: "/data/adb/tricky_store/security_patch.txt"@,
                words: words@,
            }),
            TextFile::Unreadable { words } => device_levels(device) matches Err(e)
                && e == (Refusal::FileFailed {
                path: "/data/adb/tricky_store/security_patch.txt"@,
                words: words@,
            }),
        },
        engine_of(device.modules) == Engine::TeeSimulatorV4 && stored_config(
            device.config,
            device.packages@,
        ) == Ok::<JsonView, Refusal<Seq<char>>>(config) && config.field("profiles"@) == Some(
            JsonView::Object(profiles),
        ) && is_first(profiles, i) && selected_name(config, setting_of(device.configured)) == Ok::<
            Seq<char>,
            Refusal<Seq<char>>,
        >(profiles[i].0) && profiles[i].1 is Object ==> device_levels(device) == Ok::<
            Levels,
            Refusal<Seq<char>>,
        >(
            (
                patch_level(profiles[i].1, "system"@),
                patch_level(profiles[i].1, "boot"@),
                patch_level(profiles[i].1, "vendor"@),
            ),
        ),
{
    law_places();
    if config.field("profiles"@) == Some(JsonView::Object(profiles)) && is_first(profiles, i)
        && selected_name(config, setting_of(device.configured)) == Ok::<
        Seq<char>,
        Refusal<Seq<char>>,
    >(profiles[i].0) {
        law_selected_profile(config, profiles, setting_of(device.configured), i);
    }
}

/// The keybox path of a config is that of the selected profile, and is refused as the
/// selection is, or where that profile names no keybox.
pub proof fn law_keybox_in_a_config(
    config: JsonView,
    profiles: Seq<(Seq<char>, JsonView)>,
    configured: Setting,
    i: int,
    keybox: Seq<char>,
)
    ensures
        selected_object(config, configured) matches Err(e) ==> profile_keybox(config, configured)
            == Err::<Seq<char>, Refusal<Seq<char>>>(e),
        config.field("profiles"@) == Some(JsonView::Object(profiles)) && is_first(profiles, i)
            && selected_name(config, configured) == Ok::<Seq<char>, Refusal<Seq<char>>>(
            profiles[i].0,
        ) && profiles[i].1 is Object ==> {
            &&& profiles[i].1.field("keybox"@) == Some(JsonView::Text(keybox)) ==> profile_keybox(
                config,
                configured,
            ) == Ok::<Seq<char>, Refusal<Seq<char>>>("/data/adb/teesim/"@ + keybox)
            &&& !(profiles[i].1.field("keybox"@) matches Some(JsonView::Text(_)))
                ==> profile_keybox(config, configured) == Err::<Seq<char>, Refusal<Seq<char>>>(
                Refusal::SelectedNoKeybox,
            )
        },
{
    if config.field("profiles"@) == Some(JsonView::Object(profiles)) && is_first(profiles, i)
        && selected_name(config, configured) == Ok::<Seq<char>, Refusal<Seq<char>>>(
        profiles[i].0,
    ) {
        law_selected_profile(config, profiles, configured, i);
    }
    reveal_strlit("/data/adb/teesim");
    reveal_strlit("/data/adb/teesim/");
    reveal_strlit("/");
    assert(crate::engine::TEESIM_DATA@ + "/"@ == "/data/adb/teesim/"@);
}

/// What an answer says is what it holds.
pub proof fn law_answers(
    list: Vec<String>,
    text: String,
    data: Vec<u8>,
    plan: TargetPlan,
    e: EngineError,
)
    ensures
        texts_answer(Ok(list)) == Ok::<Seq<Seq<char>>, Refusal<Seq<char>>>(texts(list@)),
        texts_answer(Err(e)) == Err::<Seq<Seq<char>>, Refusal<Seq<char>>>(e@),
        text_answer(Ok(text)) == Ok::<Seq<char>, Refusal<Seq<char>>>(text@),
        text_answer(Err(e)) == Err::<Seq<char>, Refusal<Seq<char>>>(e@),
        data_answer(Ok(data)) == Ok::<Seq<u8>, Refusal<Seq<char>>>(data@),
        data_answer(Err(e)) == Err::<Seq<u8>, Refusal<Seq<char>>>(e@),
        plan_answer(Ok(plan)) == Ok::<PlanView, Refusal<Seq<char>>>(plan@),
        plan_answer(Err(e)) == Err::<PlanView, Refusal<Seq<char>>>(e@),
        levels_answer(Ok((text, text, text))) == Ok::<Levels, Refusal<Seq<char>>>(
            (text@, text@, text@),
        ),
        plan@.mirror == plan.mirror@,
        plan.config matches Some(config) ==> plan@.config == Some(config@),
        plan.config is None ==> plan@.config is None,
{
}

} // verus!
