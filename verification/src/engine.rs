//! The attestation engines: which one is installed, and what is read from and
//! written to its files.
use crate::codec::{parsed_json, pretty_json, read_json, reads_back, write_json, MAX_DEPTH};
use crate::config::{
    apps_of, config_fault, is_listed_app, law_valid_profiles, profiles, validate_teesim_config,
};
use crate::device::{DataFile, Device, ModuleDir, Modules, TextFile};
use crate::error::{done, text_answer, texts_answer, EngineError, Refusal};
use crate::fractions::law_fractions_do_not_matter;
use crate::json::{find_entry, lemma_lookup_at, lookup, Json, JsonView};
use crate::packages::{is_app_entry, is_package_char, is_package_name, PackageUids};
use crate::patch::{
    is_patch_value, legacy_dates, normal_patch_or, normalize_patch_value, parse_tricky_patch_dates,
};
use crate::profiles::{
    law_update_changes_apps_only, lemma_apps_read_back, lemma_levels_read_back, lemma_new_apps,
    patch_level, patch_value, profile_apps, profile_status_for, profiles_are_objects,
    profiles_or_none, selected_name, selected_object, selected_profile, selected_profile_name,
    setting_of, status_of, text_items, update_patch_levels, update_profile_apps, updated_levels,
    updated_selected_apps, ProfileStatus, Setting, StatusView,
};
use crate::targets::{
    file_targets, first_occurrences, has_text, is_line, is_normal_target, law_list_is_read_back,
    law_written_targets_are_read_back, lemma_normal_entries, lemma_without_repetitions, list_text,
    normal_targets, normalize_targets, read_tricky_targets, trim_entries, trimmed_entries,
    write_target_mirror,
};
use crate::text::{both, is_digit, lemma_trimmed, lines, lines_of, texts, trimmed};
use vstd::prelude::*;

verus! {

pub const TRICKY_MODULE: &'static str = "/data/adb/modules/tricky_store";

pub const TRICKY_MODULE_HIDDEN: &'static str = "/data/adb/modules/.tricky_store";

pub const TRICKY_DATA: &'static str = "/data/adb/tricky_store";

pub const TEESIM_MODULE: &'static str = "/data/adb/modules/teesim";

pub const TEESIM_MODULE_UPDATE: &'static str = "/data/adb/modules_update/teesim";

pub const TEESIM_DATA: &'static str = "/data/adb/teesim";

/// An attestation engine.
#[derive(Debug, Clone, Copy, PartialEq, Eq, Structural)]
pub enum Engine {
    TrickyStore,
    TeeSimulatorV4,
}

/// A directory that holds the TEESimulator module and is not to be removed.
pub open spec fn is_present(dir: ModuleDir) -> bool {
    &&& dir.is_dir
    &&& !dir.removed
    &&& match dir.properties {
        Some(content) => lines_of(content@).contains("id=teesim"@),
        None => false,
    }
}

/// Whether the directory holds the TEESimulator module and is not to be removed.
pub fn module_is_present(dir: &ModuleDir) -> (r: bool)
    ensures
        r == is_present(*dir),
{
    if !dir.is_dir || dir.removed {
        return false;
    }
    match &dir.properties {
        Some(content) => has_text(&lines(content.as_str()), "id=teesim"),
        None => false,
    }
}

/// The engine that is installed: TEESimulator where its module is present.
pub open spec fn engine_of(modules: Modules) -> Engine {
    if is_present(modules.teesim) || is_present(modules.teesim_update) {
        Engine::TeeSimulatorV4
    } else {
        Engine::TrickyStore
    }
}

/// The directory in which an engine is installed, and its path.
pub open spec fn home_of(engine: Engine, modules: Modules) -> Option<(Seq<char>, ModuleDir)> {
    match engine {
        Engine::TrickyStore => if modules.tricky.is_dir && !modules.tricky.removed {
            Some((TRICKY_MODULE@, modules.tricky))
        } else if modules.tricky_hidden.is_dir && !modules.tricky_hidden.removed {
            Some((TRICKY_MODULE_HIDDEN@, modules.tricky_hidden))
        } else {
            None
        },
        Engine::TeeSimulatorV4 => if is_present(modules.teesim) {
            Some((TEESIM_MODULE@, modules.teesim))
        } else if is_present(modules.teesim_update) {
            Some((TEESIM_MODULE_UPDATE@, modules.teesim_update))
        } else {
            None
        },
    }
}

fn home<'a>(engine: Engine, modules: &'a Modules) -> (r: Option<(&'static str, &'a ModuleDir)>)
    ensures
        home_of(engine, *modules) == match r {
            Some((path, dir)) => Some((path@, *dir)),
            None => None,
        },
{
    match engine {
        Engine::TrickyStore => if modules.tricky.is_dir && !modules.tricky.removed {
            Some((TRICKY_MODULE, &modules.tricky))
        } else if modules.tricky_hidden.is_dir && !modules.tricky_hidden.removed {
            Some((TRICKY_MODULE_HIDDEN, &modules.tricky_hidden))
        } else {
            None
        },
        Engine::TeeSimulatorV4 => if module_is_present(&modules.teesim) {
            Some((TEESIM_MODULE, &modules.teesim))
        } else if module_is_present(&modules.teesim_update) {
            Some((TEESIM_MODULE_UPDATE, &modules.teesim_update))
        } else {
            None
        },
    }
}

impl Engine {
    /// The engine that is installed.
    pub fn detect(modules: &Modules) -> (r: Engine)
        ensures
            r == engine_of(*modules),
    {
        if module_is_present(&modules.teesim) || module_is_present(&modules.teesim_update) {
            Engine::TeeSimulatorV4
        } else {
            Engine::TrickyStore
        }
    }

    /// The directory in which this engine is installed.
    pub fn module_dir(self, modules: &Modules) -> (r: Option<&'static str>)
        ensures
            match home_of(self, *modules) {
                Some((path, _)) => r matches Some(dir) && dir@ == path,
                None => r is None,
            },
    {
        match home(self, modules) {
            Some((path, _)) => Some(path),
            None => None,
        }
    }

    /// Whether this engine is installed and not disabled.
    pub fn is_enabled(self, modules: &Modules) -> (r: bool)
        ensures
            r == match home_of(self, *modules) {
                Some((_, dir)) => !dir.disabled,
                None => false,
            },
    {
        match home(self, modules) {
            Some((_, dir)) => !dir.disabled,
            None => false,
        }
    }

    /// The file that holds the keybox of this engine.
    pub fn keybox_path(self, device: &Device) -> (r: Result<String, EngineError>)
        ensures
            text_answer(r) == keybox_file(self, *device),
    {
        match self {
            Engine::TrickyStore => Ok(both(TRICKY_DATA, "/keybox.xml")),
            Engine::TeeSimulatorV4 => teesim_keybox_path(device),
        }
    }
}

/// The path of the TEESimulator config.
pub open spec fn config_path() -> Seq<char> {
    TEESIM_DATA@ + "/config.json"@
}

/// The path of the TEESimulator config.
pub fn teesim_config_path() -> (r: String)
    ensures
        r@ == config_path(),
{
    both(TEESIM_DATA, "/config.json")
}

/// The config that text holds, where it holds a valid one.
pub open spec fn accepted_config(
    parsed: Option<JsonView>,
    path: Seq<char>,
    packages: Map<Seq<char>, u32>,
) -> Result<JsonView, Refusal<Seq<char>>> {
    match parsed {
        None => Err(Refusal::InvalidConfig { path }),
        Some(config) => match config_fault(config, packages) {
            Some(e) => Err(e),
            None => Ok(config),
        },
    }
}

/// The config that a file holds, where it holds a valid one.
pub open spec fn stored_config(file: DataFile, packages: Map<Seq<char>, u32>) -> Result<
    JsonView,
    Refusal<Seq<char>>,
> {
    match file {
        DataFile::Missing => Err(Refusal::ConfigMissing { path: config_path() }),
        DataFile::Unreadable => Err(Refusal::Unreadable { path: config_path() }),
        DataFile::Data(content) => accepted_config(parsed_json(content@), config_path(), packages),
    }
}

/// What came of a request for a document.
pub open spec fn json_answer(r: Result<Json, EngineError>) -> Result<
    JsonView,
    Refusal<Seq<char>>,
> {
    match r {
        Ok(document) => Ok(document@),
        Err(e) => Err(e@),
    }
}

/// Takes a document that was read as a config, where it is a valid one.
pub fn accept_config(parsed: Option<Json>, path: &str, packages: &PackageUids) -> (r: Result<
    Json,
    EngineError,
>)
    ensures
        json_answer(r) == accepted_config(
            match parsed {
                Some(config) => Some(config@),
                None => None,
            },
            path@,
            packages@,
        ),
{
    match parsed {
        None => Err(Refusal::InvalidConfig { path: path.to_owned() }),
        Some(config) => match validate_teesim_config(&config, packages) {
            Ok(()) => Ok(config),
            Err(e) => Err(e),
        },
    }
}

/// Reads a config from the content of a file.
pub fn parse_teesim_config(content: &[u8], path: &str, packages: &PackageUids) -> (r: Result<
    Json,
    EngineError,
>)
    ensures
        json_answer(r) == accepted_config(parsed_json(content@), path@, packages@),
        r matches Ok(config) ==> config@.wf() && config@.depth_within(MAX_DEPTH as nat),
{
    accept_config(read_json(content), path, packages)
}

/// Reads the config of a device.
pub fn read_teesim_config(device: &Device) -> (r: Result<Json, EngineError>)
    ensures
        json_answer(r) == stored_config(device.config, device.packages@),
        r matches Ok(config) ==> config@.wf() && config@.depth_within(MAX_DEPTH as nat),
{
    match &device.config {
        DataFile::Missing => Err(Refusal::ConfigMissing { path: teesim_config_path() }),
        DataFile::Unreadable => Err(Refusal::Unreadable { path: teesim_config_path() }),
        DataFile::Data(content) => parse_teesim_config(
            content.as_slice(),
            teesim_config_path().as_str(),
            &device.packages,
        ),
    }
}

/// The file that holds the keybox of an engine.
pub open spec fn keybox_file(engine: Engine, device: Device) -> Result<
    Seq<char>,
    Refusal<Seq<char>>,
> {
    match engine {
        Engine::TrickyStore => Ok(TRICKY_DATA@ + "/keybox.xml"@),
        Engine::TeeSimulatorV4 => match stored_config(device.config, device.packages@) {
            Err(e) => Err(e),
            Ok(config) => profile_keybox(config, setting_of(device.configured)),
        },
    }
}

/// The file that holds the keybox of the selected profile.
pub open spec fn profile_keybox(config: JsonView, configured: Setting) -> Result<
    Seq<char>,
    Refusal<Seq<char>>,
> {
    match selected_object(config, configured) {
        Err(e) => Err(e),
        Ok(profile) => match profile.field("keybox"@) {
            Some(JsonView::Text(keybox)) => Ok(TEESIM_DATA@ + "/"@ + keybox),
            _ => Err(Refusal::SelectedNoKeybox),
        },
    }
}

/// The file that holds the keybox of the selected profile.
pub fn profile_keybox_path(config: &Json, configured: &Result<String, String>) -> (r: Result<
    String,
    EngineError,
>)
    ensures
        text_answer(r) == profile_keybox(config@, setting_of(*configured)),
{
    match selected_profile(config, configured) {
        Err(e) => Err(e),
        Ok(profile) => match profile.get("keybox") {
            Some(Json::Text(keybox)) => Ok(
                both(both(TEESIM_DATA, "/").as_str(), keybox.as_str()),
            ),
            _ => Err(Refusal::SelectedNoKeybox),
        },
    }
}

/// The file that holds the keybox of TEESimulator.
pub fn teesim_keybox_path(device: &Device) -> (r: Result<String, EngineError>)
    ensures
        text_answer(r) == keybox_file(Engine::TeeSimulatorV4, *device),
{
    match read_teesim_config(device) {
        Err(e) => Err(e),
        Ok(config) => profile_keybox_path(&config, &device.configured),
    }
}

/// The apps that the config in a file gives to the selected profile.
pub open spec fn stored_targets(
    file: DataFile,
    configured: Setting,
    packages: Map<Seq<char>, u32>,
) -> Result<Seq<Seq<char>>, Refusal<Seq<char>>> {
    match stored_config(file, packages) {
        Err(e) => Err(e),
        Ok(config) => match selected_object(config, configured) {
            Err(e) => Err(e),
            Ok(profile) => Ok(text_items(apps_of(profile))),
        },
    }
}

/// The targets of a device.
pub open spec fn device_targets(device: Device) -> Result<Seq<Seq<char>>, Refusal<Seq<char>>> {
    match engine_of(device.modules) {
        Engine::TrickyStore => file_targets(device.target_mirror, false),
        Engine::TeeSimulatorV4 => stored_targets(
            device.config,
            setting_of(device.configured),
            device.packages@,
        ),
    }
}

/// Reads the targets of a device.
pub fn read_targets(device: &Device) -> (r: Result<Vec<String>, EngineError>)
    ensures
        texts_answer(r) == device_targets(*device),
{
    match Engine::detect(&device.modules) {
        Engine::TrickyStore => read_tricky_targets(&device.target_mirror),
        Engine::TeeSimulatorV4 => match read_teesim_config(device) {
            Err(e) => Err(e),
            Ok(config) => match selected_profile(&config, &device.configured) {
                Err(e) => Err(e),
                Ok(profile) => Ok(profile_apps(profile)),
            },
        },
    }
}

/// What is to be written for a new list of targets: first the TEESimulator config,
/// where there is one to write, and then the TrickyStore file.
pub struct TargetPlan {
    pub config: Option<Vec<u8>>,
    pub mirror: String,
}

/// What a target plan holds.
pub ghost struct PlanView {
    pub config: Option<Seq<u8>>,
    pub mirror: Seq<char>,
}

impl View for TargetPlan {
    type V = PlanView;

    open spec fn view(&self) -> PlanView {
        PlanView {
            config: match self.config {
                Some(data) => Some(data@),
                None => None,
            },
            mirror: self.mirror@,
        }
    }
}

/// What came of a request for a target plan.
pub open spec fn plan_answer(r: Result<TargetPlan, EngineError>) -> Result<
    PlanView,
    Refusal<Seq<char>>,
> {
    match r {
        Ok(plan) => Ok(plan@),
        Err(e) => Err(e@),
    }
}

/// What came of a request for data.
pub open spec fn data_answer(r: Result<Vec<u8>, EngineError>) -> Result<
    Seq<u8>,
    Refusal<Seq<char>>,
> {
    match r {
        Ok(data) => Ok(data@),
        Err(e) => Err(e@),
    }
}

/// A changed config, where it is valid.
pub open spec fn checked_change(
    changed: Result<JsonView, Refusal<Seq<char>>>,
    packages: Map<Seq<char>, u32>,
) -> Result<JsonView, Refusal<Seq<char>>> {
    match changed {
        Err(e) => Err(e),
        Ok(config) => match config_fault(config, packages) {
            Some(e) => Err(e),
            None => Ok(config),
        },
    }
}

/// The config of a device after the apps of the selected profile were replaced, where
/// it is valid before and after.
pub open spec fn config_with_apps(device: Device, entries: Seq<Seq<char>>) -> Result<
    JsonView,
    Refusal<Seq<char>>,
> {
    match stored_config(device.config, device.packages@) {
        Err(e) => Err(e),
        Ok(config) => checked_change(
            updated_selected_apps(
                config,
                entries,
                setting_of(device.configured),
                device.packages@,
            ),
            device.packages@,
        ),
    }
}

/// The file that holds a config: the document, indented, and a line feed.
pub open spec fn config_data(config: Result<JsonView, Refusal<Seq<char>>>) -> Result<
    Seq<u8>,
    Refusal<Seq<char>>,
> {
    match config {
        Err(e) => Err(e),
        Ok(config) => Ok(pretty_json(config).push(10)),
    }
}

/// The file for a changed config, where it is valid. It reads back as the config.
pub fn store_config(config: &Json, packages: &PackageUids) -> (r: Result<Vec<u8>, EngineError>)
    requires
        config@.wf(),
    ensures
        data_answer(r) == config_data(checked_change(Ok(config@), packages@)),
        r matches Ok(data) ==> config@.depth_within(MAX_DEPTH as nat) ==> reads_back(
            data@,
            config@,
        ),
{
    match validate_teesim_config(config, packages) {
        Err(e) => {
            return Err(e);
        },
        Ok(()) => {},
    }
    let mut data: Vec<u8> = write_json(config);
    data.push(10);
    Ok(data)
}

/// The profiles of a valid config are objects.
proof fn lemma_valid_profiles_are_objects(config: JsonView, packages: Map<Seq<char>, u32>)
    requires
        config_fault(config, packages) is None,
    ensures
        profiles_are_objects(config),
{
    assert forall|k: int| 0 <= k < profiles_or_none(config).len() implies (
    #[trigger] profiles_or_none(config)[k]).1 is Object by {
        law_valid_profiles(config, packages, k);
    }
}

/// The file for the config of a device with other apps in the selected profile.
fn change_apps(device: &Device, entries: &Vec<String>) -> (r: Result<Vec<u8>, EngineError>)
    ensures
        data_answer(r) == config_data(config_with_apps(*device, texts(entries@))),
        r matches Ok(data) ==> (config_with_apps(*device, texts(entries@)) matches Ok(config)
            ==> reads_back(data@, config)),
        r matches Ok(data) ==> stored_targets(
            DataFile::Data(data),
            setting_of(device.configured),
            device.packages@,
        ) == Ok::<Seq<Seq<char>>, Refusal<Seq<char>>>(texts(entries@)),
{
    match read_teesim_config(device) {
        Err(e) => Err(e),
        Ok(config) => {
            let mut config: Json = config;
            let ghost before = config@;
            proof {
                lemma_valid_profiles_are_objects(before, device.packages@);
                if selected_name(before, setting_of(device.configured)) is Ok {
                    lemma_lookup_at(
                        profiles_or_none(before),
                        selected_name(before, setting_of(device.configured))->Ok_0,
                    );
                }
            }
            match update_profile_apps(
                &mut config,
                entries,
                &device.configured,
                &device.packages,
            ) {
                Err(e) => Err(e),
                Ok(_) => {
                    proof {
                        lemma_apps_read_back(
                            before,
                            texts(entries@),
                            setting_of(device.configured),
                            device.packages@,
                            MAX_DEPTH as nat,
                        );
                    }
                    let data: Vec<u8> = match store_config(&config, &device.packages) {
                        Ok(data) => data,
                        Err(e) => {
                            return Err(e);
                        },
                    };
                    proof {
                        law_fractions_do_not_matter(
                            config@,
                            parsed_json(data@)->0,
                            setting_of(device.configured),
                            device.packages@,
                            seq![],
                        );
                    }
                    Ok(data)
                },
            }
        },
    }
}

/// What is to be written for a list of targets.
pub open spec fn target_plan(device: Device, entries: Seq<Seq<char>>) -> Result<
    PlanView,
    Refusal<Seq<char>>,
> {
    match engine_of(device.modules) {
        Engine::TrickyStore => Ok(
            PlanView { config: None, mirror: list_text(trimmed_entries(entries, true)) },
        ),
        Engine::TeeSimulatorV4 => match config_data(
            config_with_apps(device, normal_targets(entries)),
        ) {
            Err(e) => Err(e),
            Ok(data) => Ok(
                PlanView { config: Some(data), mirror: list_text(normal_targets(entries)) },
            ),
        },
    }
}

/// A file holds this text.
pub open spec fn holds_text(file: TextFile, content: Seq<char>) -> bool {
    file matches TextFile::Text(text) && text@ == content
}

/// A file holds this data.
pub open spec fn holds_data(file: DataFile, content: Seq<u8>) -> bool {
    file matches DataFile::Data(data) && data@ == content
}

/// `after` is a device like `device`, with `data` as its TEESimulator config.
pub open spec fn is_with_config(device: Device, data: Seq<u8>, after: Device) -> bool {
    &&& engine_of(after.modules) == engine_of(device.modules)
    &&& after.packages@ == device.packages@
    &&& setting_of(after.configured) == setting_of(device.configured)
    &&& holds_data(after.config, data)
}

/// `after` is a device like `device`, once a plan is carried out.
pub open spec fn is_after(device: Device, plan: PlanView, after: Device) -> bool {
    &&& engine_of(after.modules) == engine_of(device.modules)
    &&& holds_text(after.target_mirror, plan.mirror)
    &&& plan.config matches Some(data) ==> is_with_config(device, data, after)
}

/// Once a plan is carried out, these are the targets that are read.
pub open spec fn is_read_back(device: Device, plan: PlanView, targets: Seq<Seq<char>>) -> bool {
    forall|after: Device| #[trigger]
        is_after(device, plan, after) ==> device_targets(after) == Ok::<
            Seq<Seq<char>>,
            Refusal<Seq<char>>,
        >(targets)
}

/// The targets that entries stand for: TEESimulator takes them normalised, and TrickyStore
/// takes them without white space around them, empty ones and comments.
pub open spec fn meant_targets(engine: Engine, entries: Seq<Seq<char>>) -> Seq<Seq<char>> {
    match engine {
        Engine::TrickyStore => trimmed_entries(entries, false),
        Engine::TeeSimulatorV4 => normal_targets(entries),
    }
}

/// No entry holds a line feed, or none that trimming leaves in it.
pub open spec fn without_feeds(entries: Seq<Seq<char>>) -> bool {
    forall|i: int|
        0 <= i < entries.len() ==> !(#[trigger] entries[i]).contains('\n') || !trimmed(
            entries[i],
        ).contains('\n')
}

/// What is to be written for a list of targets. For TEESimulator the selected profile
/// takes the bare entries. Reading the targets then gives back those that the entries
/// stand for; for TrickyStore an entry with a line feed inside would be read as two.
pub fn write_targets(device: &Device, entries: &Vec<String>) -> (r: Result<
    TargetPlan,
    EngineError,
>)
    ensures
        plan_answer(r) == target_plan(*device, texts(entries@)),
        r matches Ok(plan) ==> (plan.config matches Some(data) ==> config_with_apps(
            *device,
            normal_targets(texts(entries@)),
        ) matches Ok(config) && reads_back(data@, config)),
        r matches Ok(plan) ==> (engine_of(device.modules) == Engine::TeeSimulatorV4
            || without_feeds(texts(entries@))) ==> is_read_back(
            *device,
            plan@,
            meant_targets(engine_of(device.modules), texts(entries@)),
        ),
{
    match Engine::detect(&device.modules) {
        Engine::TrickyStore => {
            proof {
                if without_feeds(texts(entries@)) {
                    assert forall|i: int| 0 <= i < texts(entries@).len() implies !trimmed(
                        #[trigger] texts(entries@)[i],
                    ).contains('\n') by {
                        lemma_trimmed(texts(entries@)[i]);
                    }
                    law_written_targets_are_read_back(texts(entries@), false);
                }
            }
            Ok(
                TargetPlan {
                    config: None,
                    mirror: write_target_mirror(&trim_entries(entries, true)),
                },
            )
        },
        Engine::TeeSimulatorV4 => {
            let normalized: Vec<String> = normalize_targets(entries);
            match change_apps(device, &normalized) {
                Err(e) => Err(e),
                Ok(data) => Ok(
                    TargetPlan { config: Some(data), mirror: write_target_mirror(&normalized) },
                ),
            }
        },
    }
}

/// The TrickyStore file for the targets of TEESimulator; nothing is written where
/// TrickyStore is the engine.
pub fn export_target_mirror(device: &Device) -> (r: Result<Option<String>, EngineError>)
    ensures
        match engine_of(device.modules) {
            Engine::TrickyStore => r matches Ok(None),
            Engine::TeeSimulatorV4 => match device_targets(*device) {
                Ok(targets) => r matches Ok(Some(mirror)) && mirror@ == list_text(targets),
                Err(e) => r matches Err(error) && error@ == e,
            },
        },
{
    if Engine::detect(&device.modules) == Engine::TrickyStore {
        return Ok(None);
    }
    match read_targets(device) {
        Err(e) => Err(e),
        Ok(targets) => Ok(Some(write_target_mirror(&targets))),
    }
}

/// What is to be written so that TEESimulator takes the targets of the TrickyStore
/// file; nothing where TrickyStore is the engine. Targets that were exported to the file
/// are read again afterwards, each once.
pub fn import_target_mirror(device: &Device) -> (r: Result<Option<TargetPlan>, EngineError>)
    ensures
        match engine_of(device.modules) {
            Engine::TrickyStore => r matches Ok(None),
            Engine::TeeSimulatorV4 => match file_targets(device.target_mirror, false) {
                Ok(targets) => match target_plan(*device, targets) {
                    Ok(plan) => r matches Ok(Some(p)) && p@ == plan,
                    Err(e) => r matches Err(error) && error@ == e,
                },
                Err(e) => r matches Err(error) && error@ == e,
            },
        },
        r matches Ok(Some(plan)) ==> (file_targets(device.target_mirror, false) matches Ok(targets)
            ==> is_read_back(*device, plan@, normal_targets(targets))),
        r matches Ok(Some(plan)) ==> (device_targets(*device) matches Ok(targets) ==> holds_text(
            device.target_mirror,
            list_text(targets),
        ) ==> is_read_back(*device, plan@, first_occurrences(targets))),
{
    if Engine::detect(&device.modules) == Engine::TrickyStore {
        return Ok(None);
    }
    match read_tricky_targets(&device.target_mirror) {
        Err(e) => Err(e),
        Ok(targets) => {
            proof {
                if device_targets(*device) is Ok && holds_text(
                    device.target_mirror,
                    list_text(device_targets(*device)->Ok_0),
                ) {
                    law_exported_targets_are_read_back(*device);
                    law_targets_are_normal(*device);
                }
            }
            match write_targets(device, &targets) {
                Err(e) => Err(e),
                Ok(plan) => Ok(Some(plan)),
            }
        },
    }
}

/// The system, boot and vendor patch levels.
pub type Levels = (Seq<char>, Seq<char>, Seq<char>);

/// What came of a request for patch levels.
pub open spec fn levels_answer(r: Result<(String, String, String), EngineError>) -> Result<
    Levels,
    Refusal<Seq<char>>,
> {
    match r {
        Ok((system, boot, vendor)) => Ok((system@, boot@, vendor@)),
        Err(e) => Err(e@),
    }
}

/// The path of the legacy patch levels.
pub open spec fn legacy_patch_path() -> Seq<char> {
    TRICKY_DATA@ + "/security_patch.txt"@
}

fn legacy_failure(words: &String) -> (r: EngineError)
    ensures
        r@ == (Refusal::FileFailed { path: legacy_patch_path(), words: words@ }),
{
    Refusal::FileFailed { path: both(TRICKY_DATA, "/security_patch.txt"), words: words.clone() }
}

/// The patch levels that the config in a file gives to the selected profile.
pub open spec fn stored_levels(
    file: DataFile,
    configured: Setting,
    packages: Map<Seq<char>, u32>,
) -> Result<Levels, Refusal<Seq<char>>> {
    match stored_config(file, packages) {
        Err(e) => Err(e),
        Ok(config) => match selected_object(config, configured) {
            Err(e) => Err(e),
            Ok(profile) => Ok(
                (
                    patch_level(profile, "system"@),
                    patch_level(profile, "boot"@),
                    patch_level(profile, "vendor"@),
                ),
            ),
        },
    }
}

/// The patch levels of a device.
pub open spec fn device_levels(device: Device) -> Result<Levels, Refusal<Seq<char>>> {
    match engine_of(device.modules) {
        Engine::TrickyStore => match device.security_patch {
            TextFile::Text(content) => Ok(legacy_dates(content@)),
            TextFile::Missing { words } => Err(
                Refusal::FileFailed { path: legacy_patch_path(), words: words@ },
            ),
            TextFile::Unreadable { words } => Err(
                Refusal::FileFailed { path: legacy_patch_path(), words: words@ },
            ),
        },
        Engine::TeeSimulatorV4 => stored_levels(
            device.config,
            setting_of(device.configured),
            device.packages@,
        ),
    }
}

/// Reads the system, boot and vendor patch levels of a device.
pub fn read_patch_dates(device: &Device) -> (r: Result<(String, String, String), EngineError>)
    ensures
        levels_answer(r) == device_levels(*device),
{
    match Engine::detect(&device.modules) {
        Engine::TrickyStore => match &device.security_patch {
            TextFile::Text(content) => Ok(parse_tricky_patch_dates(content.as_str())),
            TextFile::Missing { words } => Err(legacy_failure(words)),
            TextFile::Unreadable { words } => Err(legacy_failure(words)),
        },
        Engine::TeeSimulatorV4 => match read_teesim_config(device) {
            Err(e) => Err(e),
            Ok(config) => match selected_profile(&config, &device.configured) {
                Err(e) => Err(e),
                Ok(profile) => {
                    let patch: Option<&Json> = profile.get("patchLevel");
                    Ok(
                        (
                            patch_value(patch, "system"),
                            patch_value(patch, "boot"),
                            patch_value(patch, "vendor"),
                        ),
                    )
                },
            },
        },
    }
}

/// The patch levels that settings stand for, where they are allowed.
pub open spec fn normal_levels(levels: Levels) -> Result<Levels, Refusal<Seq<char>>> {
    match normal_patch_or(levels.0) {
        Err(e) => Err(e),
        Ok(system) => match normal_patch_or(levels.1) {
            Err(e) => Err(e),
            Ok(boot) => match normal_patch_or(levels.2) {
                Err(e) => Err(e),
                Ok(vendor) => Ok((system, boot, vendor)),
            },
        },
    }
}

/// The config of a device after the patch levels of the selected profile were
/// replaced, where it is valid before and after.
pub open spec fn config_with_levels(device: Device, levels: Levels) -> Result<
    JsonView,
    Refusal<Seq<char>>,
> {
    match normal_levels(levels) {
        Err(e) => Err(e),
        Ok((system, boot, vendor)) => match stored_config(device.config, device.packages@) {
            Err(e) => Err(e),
            Ok(config) => checked_change(
                updated_levels(config, setting_of(device.configured), system, boot, vendor),
                device.packages@,
            ),
        },
    }
}

/// Once `data` is written as the config of TEESimulator, these are the patch levels that
/// it reads.
pub open spec fn levels_are_read_back(
    device: Device,
    data: Seq<u8>,
    levels: Result<Levels, Refusal<Seq<char>>>,
) -> bool {
    forall|after: Device| #[trigger]
        is_with_config(device, data, after) ==> {
            &&& stored_levels(after.config, setting_of(after.configured), after.packages@)
                == levels
            &&& engine_of(device.modules) == Engine::TeeSimulatorV4 ==> device_levels(after)
                == levels
        }
}

/// The file for the TEESimulator config with other patch levels in the selected
/// profile. Reading it gives the levels back.
pub fn write_patch_dates(device: &Device, system: &str, boot: &str, vendor: &str) -> (r: Result<
    Vec<u8>,
    EngineError,
>)
    ensures
        data_answer(r) == config_data(config_with_levels(*device, (system@, boot@, vendor@))),
        r matches Ok(data) ==> (config_with_levels(*device, (system@, boot@, vendor@)) matches Ok(
            config,
        ) ==> reads_back(data@, config)),
        r matches Ok(data) ==> levels_are_read_back(
            *device,
            data@,
            normal_levels((system@, boot@, vendor@)),
        ),
{
    let system: String = match normalize_patch_value(system) {
        Ok(level) => level,
        Err(e) => {
            return Err(e);
        },
    };
    let boot: String = match normalize_patch_value(boot) {
        Ok(level) => level,
        Err(e) => {
            return Err(e);
        },
    };
    let vendor: String = match normalize_patch_value(vendor) {
        Ok(level) => level,
        Err(e) => {
            return Err(e);
        },
    };
    match read_teesim_config(device) {
        Err(e) => Err(e),
        Ok(config) => {
            let mut config: Json = config;
            let ghost before = config@;
            let ghost levels = (system@, boot@, vendor@);
            match update_patch_levels(&mut config, &device.configured, system, boot, vendor) {
                Err(e) => Err(e),
                Ok(()) => {
                    proof {
                        lemma_levels_read_back(
                            before,
                            setting_of(device.configured),
                            levels.0,
                            levels.1,
                            levels.2,
                            MAX_DEPTH as nat,
                        );
                    }
                    let data: Vec<u8> = match store_config(&config, &device.packages) {
                        Ok(data) => data,
                        Err(e) => {
                            return Err(e);
                        },
                    };
                    proof {
                        let seen = parsed_json(data@)->0;
                        let configured = setting_of(device.configured);
                        let packages = device.packages@;
                        law_fractions_do_not_matter(config@, seen, configured, packages, "system"@);
                        law_fractions_do_not_matter(config@, seen, configured, packages, "boot"@);
                        law_fractions_do_not_matter(config@, seen, configured, packages, "vendor"@);
                    }
                    Ok(data)
                },
            }
        },
    }
}

/// `no` for a level that is not given.
pub open spec fn level_or_no(level: Seq<char>) -> Seq<char> {
    if level.len() == 0 {
        "no"@
    } else {
        level
    }
}

/// The levels that a legacy file gives to a profile.
pub open spec fn legacy_levels(file: TextFile) -> Result<Levels, Refusal<Seq<char>>> {
    match file {
        TextFile::Missing { .. } => Ok(("no"@, "no"@, "no"@)),
        TextFile::Unreadable { words } => Err(
            Refusal::FileFailed { path: legacy_patch_path(), words: words@ },
        ),
        TextFile::Text(content) => {
            let (system, boot, vendor) = legacy_dates(content@);
            Ok((level_or_no(system), level_or_no(boot), level_or_no(vendor)))
        },
    }
}

fn or_no(level: String) -> (r: String)
    ensures
        r@ == level_or_no(level@),
{
    if level.as_str().is_empty() {
        "no".to_owned()
    } else {
        level
    }
}

/// The file for the TEESimulator config with the levels of the legacy file in the
/// selected profile.
pub fn import_legacy_patch(device: &Device) -> (r: Result<Vec<u8>, EngineError>)
    ensures
        data_answer(r) == match legacy_levels(device.security_patch) {
            Err(e) => Err(e),
            Ok(levels) => config_data(config_with_levels(*device, levels)),
        },
        r matches Ok(data) ==> levels_are_read_back(
            *device,
            data@,
            normal_levels(legacy_levels(device.security_patch)->Ok_0),
        ),
{
    match &device.security_patch {
        TextFile::Missing { .. } => write_patch_dates(device, "no", "no", "no"),
        TextFile::Unreadable { words } => Err(legacy_failure(words)),
        TextFile::Text(content) => {
            let (system, boot, vendor): (String, String, String) = parse_tricky_patch_dates(
                content.as_str(),
            );
            write_patch_dates(
                device,
                or_no(system).as_str(),
                or_no(boot).as_str(),
                or_no(vendor).as_str(),
            )
        },
    }
}

/// Whether a profile is selected, where TEESimulator is the engine.
pub open spec fn selection_check(device: Device) -> Result<(), Refusal<Seq<char>>> {
    match engine_of(device.modules) {
        Engine::TrickyStore => Ok(()),
        Engine::TeeSimulatorV4 => match stored_config(device.config, device.packages@) {
            Err(e) => Err(e),
            Ok(config) => match selected_name(config, setting_of(device.configured)) {
                Err(e) => Err(e),
                Ok(_) => Ok(()),
            },
        },
    }
}

/// Checks that a profile is selected, where TEESimulator is the engine.
pub fn ensure_profile_selected(device: &Device) -> (r: Result<(), EngineError>)
    ensures
        done(r) == selection_check(*device),
{
    if Engine::detect(&device.modules) == Engine::TeeSimulatorV4 {
        match read_teesim_config(device) {
            Err(e) => {
                return Err(e);
            },
            Ok(config) => match selected_profile_name(&config, &device.configured) {
                Err(e) => {
                    return Err(e);
                },
                Ok(_) => {},
            },
        }
    }
    Ok(())
}

/// Which profiles a device has, and which one `configured` selects.
pub open spec fn device_status(device: Device, configured: Seq<char>) -> Result<
    StatusView,
    Refusal<Seq<char>>,
> {
    match engine_of(device.modules) {
        Engine::TrickyStore => Ok(
            StatusView { available: false, profiles: seq![], selected: None, automatic: false },
        ),
        Engine::TeeSimulatorV4 => match stored_config(device.config, device.packages@) {
            Err(e) => Err(e),
            Ok(config) => status_of(config, configured, device.packages@),
        },
    }
}

/// Which profiles a device has, and which one `configured` selects.
pub fn profile_status(device: &Device, configured: &str) -> (r: Result<
    ProfileStatus,
    EngineError,
>)
    ensures
        device_status(*device, configured@) == match r {
            Ok(status) => Ok(status@),
            Err(e) => Err(e@),
        },
{
    if Engine::detect(&device.modules) != Engine::TeeSimulatorV4 {
        let none: Vec<String> = Vec::new();
        assert(texts(none@) == Seq::<Seq<char>>::empty());
        return Ok(
            ProfileStatus { available: false, profiles: none, selected: None, automatic: false },
        );
    }
    match read_teesim_config(device) {
        Err(e) => Err(e),
        Ok(config) => profile_status_for(&config, configured, &device.packages),
    }
}

/// Whether a profile may be chosen: none may always, and another where TEESimulator
/// has it.
pub open spec fn choice_check(device: Device, configured: Seq<char>) -> Result<
    (),
    Refusal<Seq<char>>,
> {
    if configured.len() == 0 || engine_of(device.modules) != Engine::TeeSimulatorV4 {
        Ok(())
    } else {
        match stored_config(device.config, device.packages@) {
            Err(e) => Err(e),
            Ok(config) => if lookup(profiles_or_none(config), configured) is Some {
                Ok(())
            } else {
                Err(Refusal::UnknownProfile { name: configured })
            },
        }
    }
}

/// Checks that a profile may be chosen.
pub fn validate_profile_choice(device: &Device, configured: &str) -> (r: Result<(), EngineError>)
    ensures
        done(r) == choice_check(*device, configured@),
{
    if configured.is_empty() || Engine::detect(&device.modules) != Engine::TeeSimulatorV4 {
        return Ok(());
    }
    match read_teesim_config(device) {
        Err(e) => Err(e),
        Ok(config) => {
            let known: bool = match profiles(&config) {
                Some(profiles) => find_entry(profiles, configured).is_some(),
                None => false,
            };
            if known {
                Ok(())
            } else {
                Err(Refusal::UnknownProfile { name: configured.to_owned() })
            }
        },
    }
}

/// TEESimulator is the engine where it has a module directory, and there alone.
pub proof fn law_teesim_has_a_home(modules: Modules)
    ensures
        engine_of(modules) == Engine::TeeSimulatorV4 <==> home_of(
            Engine::TeeSimulatorV4,
            modules,
        ) is Some,
{
}

/// A config that is written is valid, whatever was asked for, and the levels in it are
/// allowed ones.
pub proof fn law_only_valid_configs_are_written(
    device: Device,
    entries: Seq<Seq<char>>,
    levels: Levels,
)
    ensures
        config_with_apps(device, entries) matches Ok(config) ==> config_fault(
            config,
            device.packages@,
        ) is None,
        config_with_levels(device, levels) matches Ok(config) ==> {
            &&& config_fault(config, device.packages@) is None
            &&& normal_levels(levels) matches Ok((system, boot, vendor)) && is_patch_value(system)
                && is_patch_value(boot) && is_patch_value(vendor)
        },
{
}

/// A profile that may be chosen is the selected one once it is configured, unless there is
/// but one profile, which is selected in any case.
pub proof fn law_choice_is_selected(device: Device, name: Seq<char>)
    requires
        engine_of(device.modules) == Engine::TeeSimulatorV4,
        name.len() > 0,
        choice_check(device, name) is Ok,
    ensures
        stored_config(device.config, device.packages@) matches Ok(config) && selected_name(
            config,
            Ok(name),
        ) == Ok::<Seq<char>, Refusal<Seq<char>>>(name),
{
    let config = stored_config(device.config, device.packages@)->Ok_0;
    lemma_lookup_at(profiles_or_none(config), name);
}

/// An app entry can stand in a line of its own, and normalisation leaves it as it is.
proof fn lemma_app_entry(app: Seq<char>)
    requires
        is_app_entry(app),
    ensures
        is_line(app),
        is_normal_target(app),
{
    if is_package_name(app) {
        assert(is_package_char(app[0]));
        assert(is_package_char(app[app.len() - 1]));
        assert forall|k: int| 0 <= k < app.len() implies app[k] != '\n' by {
            assert(is_package_char(app[k]));
        }
    } else {
        reveal_strlit("uid:");
        let number = app.skip(4);
        assert(app == "uid:"@ + number);
        let digits = if number[0] == '-' || number[0] == '+' {
            number.skip(1)
        } else {
            number
        };
        assert(is_digit(digits[digits.len() - 1]));
        assert(digits[digits.len() - 1] == app[app.len() - 1]);
        assert(app[0] == 'u');
        assert forall|k: int| 0 <= k < app.len() implies app[k] != '\n' by {
            if k >= 4 {
                let from = number.len() - digits.len();
                if k >= 4 + from {
                    assert(is_digit(digits[k - 4 - from]));
                    assert(digits[k - 4 - from] == app[k]);
                } else {
                    assert(app[k] == number[0]);
                }
            } else {
                assert(app[k] == "uid:"@[k]);
            }
        }
    }
}

proof fn lemma_listed_apps(items: Seq<JsonView>)
    requires
        forall|j: int| 0 <= j < items.len() ==> is_listed_app(#[trigger] items[j]),
    ensures
        forall|j: int|
            0 <= j < text_items(items).len() ==> is_line(#[trigger] text_items(items)[j])
                && is_normal_target(text_items(items)[j]),
    decreases items.len(),
{
    if items.len() > 0 {
        let before = items.drop_last();
        assert forall|j: int| 0 <= j < before.len() implies is_listed_app(
            #[trigger] before[j],
        ) by {
            assert(before[j] == items[j]);
        }
        lemma_listed_apps(before);
        assert(is_listed_app(items[items.len() - 1]));
        lemma_app_entry(items.last()->Text_0);
        let apps = text_items(items);
        assert(apps == text_items(before).push(items.last()->Text_0));
        assert forall|j: int| 0 <= j < apps.len() implies is_line(#[trigger] apps[j])
            && is_normal_target(apps[j]) by {
            if j < text_items(before).len() {
                assert(apps[j] == text_items(before)[j]);
            }
        }
    }
}

/// The apps of the selected profile of a valid config can stand in lines of their own, and
/// normalisation leaves them as they are.
pub proof fn lemma_selected_apps(
    config: JsonView,
    configured: Setting,
    packages: Map<Seq<char>, u32>,
)
    requires
        config_fault(config, packages) is None,
        selected_object(config, configured) is Ok,
    ensures
        ({
            let apps = text_items(apps_of(selected_object(config, configured)->Ok_0));
            forall|j: int|
                0 <= j < apps.len() ==> is_line(#[trigger] apps[j]) && is_normal_target(apps[j])
        }),
{
    let name = selected_name(config, configured)->Ok_0;
    let profiles = profiles_or_none(config);
    lemma_lookup_at(profiles, name);
    let k = choose|k: int|
        0 <= k < profiles.len() && #[trigger] profiles[k].0 == name && Some(profiles[k].1)
            == lookup(profiles, name);
    law_valid_profiles(config, packages, k);
    lemma_listed_apps(apps_of(profiles[k].1));
}

/// The TrickyStore file that is written for the targets of TEESimulator holds them: what
/// TrickyStore reads from it are the apps of the selected profile, in their order.
pub proof fn law_exported_targets_are_read_back(device: Device)
    requires
        engine_of(device.modules) == Engine::TeeSimulatorV4,
        device_targets(device) is Ok,
    ensures
        trimmed_entries(lines_of(list_text(device_targets(device)->Ok_0)), false)
            == device_targets(device)->Ok_0,
{
    let config = stored_config(device.config, device.packages@)->Ok_0;
    lemma_selected_apps(config, setting_of(device.configured), device.packages@);
    law_list_is_read_back(device_targets(device)->Ok_0, false);
}

/// Normalising the targets of TEESimulator takes the repetitions from them, and nothing
/// else.
pub proof fn law_targets_are_normal(device: Device)
    requires
        engine_of(device.modules) == Engine::TeeSimulatorV4,
        device_targets(device) is Ok,
    ensures
        normal_targets(device_targets(device)->Ok_0) == first_occurrences(
            device_targets(device)->Ok_0,
        ),
        device_targets(device)->Ok_0.no_duplicates() ==> first_occurrences(
            device_targets(device)->Ok_0,
        ) == device_targets(device)->Ok_0,
{
    let config = stored_config(device.config, device.packages@)->Ok_0;
    lemma_selected_apps(config, setting_of(device.configured), device.packages@);
    lemma_normal_entries(device_targets(device)->Ok_0);
    lemma_without_repetitions(device_targets(device)->Ok_0);
}

/// Writing targets changes the apps of the selected profile alone: every other profile,
/// every other field of the profile, and every other field of the config stays.
pub proof fn law_written_targets_change_nothing_else(
    device: Device,
    entries: Seq<Seq<char>>,
    other: Seq<char>,
    field: Seq<char>,
)
    requires
        config_with_apps(device, entries) is Ok,
    ensures
        ({
            let before = stored_config(device.config, device.packages@)->Ok_0;
            let after = config_with_apps(device, entries)->Ok_0;
            let selected = selected_name(before, setting_of(device.configured))->Ok_0;
            let old_profile = lookup(profiles_or_none(before), selected)->0;
            let new_profile = lookup(profiles_or_none(after), selected)->0;
            &&& stored_config(device.config, device.packages@) is Ok
            &&& selected_name(before, setting_of(device.configured)) is Ok
            &&& field != "apps"@ ==> new_profile.field(field) == old_profile.field(field)
            &&& other != selected ==> lookup(profiles_or_none(after), other) == lookup(
                profiles_or_none(before),
                other,
            )
            &&& field != "profiles"@ ==> after.field(field) == before.field(field)
        }),
{
    let before = stored_config(device.config, device.packages@)->Ok_0;
    let selected = selected_name(before, setting_of(device.configured))->Ok_0;
    lemma_valid_profiles_are_objects(before, device.packages@);
    lemma_lookup_at(profiles_or_none(before), selected);
    law_update_changes_apps_only(before, entries, selected, device.packages@, other, field);
}

/// The TrickyStore file that is written along with the TEESimulator config holds the
/// same targets as the config.
pub proof fn law_mirror_holds_the_apps(device: Device, entries: Seq<Seq<char>>)
    requires
        engine_of(device.modules) == Engine::TeeSimulatorV4,
        target_plan(device, entries) is Ok,
    ensures
        config_with_apps(device, normal_targets(entries)) matches Ok(config) && selected_object(
            config,
            setting_of(device.configured),
        ) matches Ok(profile) && text_items(apps_of(profile)) == normal_targets(entries),
        trimmed_entries(lines_of(target_plan(device, entries)->Ok_0.mirror), false)
            == normal_targets(entries),
{
    let targets = normal_targets(entries);
    let configured = setting_of(device.configured);
    let before = stored_config(device.config, device.packages@)->Ok_0;
    let after = config_with_apps(device, targets)->Ok_0;
    lemma_valid_profiles_are_objects(before, device.packages@);
    lemma_new_apps(before, targets, configured, device.packages@);
    lemma_selected_apps(after, configured, device.packages@);
    law_list_is_read_back(targets, false);
}

} // verus!
