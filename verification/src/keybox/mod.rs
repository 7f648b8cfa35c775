//! The keybox of a device: where it comes from and how it is installed.
pub mod error;
pub mod generate;
pub mod install;
pub mod report;

use crate::device::Device;
use crate::engine::{engine_of, keybox_file, Engine};
use crate::keybox::error::{no_file, KeyboxError, KeyboxFailure};
use crate::keybox::install::{
    backup_answer, backup_target, install_answer, install_data, install_of, law_keybox_path,
    target_backup, BackupPlan, BackupView, InstallPlan, InstallView, KeyboxFiles,
};
use crate::keybox::report::{faults, Report};
use crate::profiles::text_option;
use crate::text::{both, lowercase, same_in_lowercase};
use vstd::prelude::*;

verus! {

/// Where a keybox is fetched from.
#[derive(Debug, Clone, Copy, PartialEq, Eq, Structural)]
pub enum KeyboxSource {
    Yurikey,
    Upstream,
    Custom,
}

impl Default for KeyboxSource {
    fn default() -> (r: KeyboxSource)
        ensures
            r == KeyboxSource::Yurikey,
    {
        KeyboxSource::Yurikey
    }
}

/// The name of a source.
pub open spec fn label_of(source: KeyboxSource) -> Seq<char> {
    match source {
        KeyboxSource::Yurikey => "yurikey"@,
        KeyboxSource::Upstream => "upstream"@,
        KeyboxSource::Custom => "custom"@,
    }
}

/// The name of a source.
pub fn source_label(source: &KeyboxSource) -> (r: &'static str)
    ensures
        r@ == label_of(*source),
{
    match source {
        KeyboxSource::Yurikey => "yurikey",
        KeyboxSource::Upstream => "upstream",
        KeyboxSource::Custom => "custom",
    }
}

/// The source that a text names, in letters of either case.
pub open spec fn source_of(text: Seq<char>) -> Option<KeyboxSource> {
    let name = lowercase(text);
    if name == "yurikey"@ {
        Some(KeyboxSource::Yurikey)
    } else if name == "upstream"@ {
        Some(KeyboxSource::Upstream)
    } else if name == "custom"@ {
        Some(KeyboxSource::Custom)
    } else {
        None
    }
}

impl KeyboxSource {
    /// The source that a text names, in letters of either case.
    pub fn from_str(s: &str) -> (r: Result<KeyboxSource, KeyboxError>)
        ensures
            match source_of(s@) {
                Some(source) => r == Ok::<KeyboxSource, KeyboxError>(source),
                None => r matches Err(e) && e@ == (KeyboxFailure::UnknownSource { name: s@ }),
            },
    {
        if same_in_lowercase(s, "yurikey") {
            Ok(KeyboxSource::Yurikey)
        } else if same_in_lowercase(s, "upstream") {
            Ok(KeyboxSource::Upstream)
        } else if same_in_lowercase(s, "custom") {
            Ok(KeyboxSource::Custom)
        } else {
            Err(KeyboxFailure::UnknownSource { name: s.to_owned() })
        }
    }
}

/// The source that a setting prefers.
pub open spec fn preferred_source(setting: Seq<char>) -> KeyboxSource {
    match source_of(setting) {
        Some(source) => source,
        None => KeyboxSource::Yurikey,
    }
}

/// The source that a setting prefers.
pub fn preferred(setting: &str) -> (r: KeyboxSource)
    ensures
        r == preferred_source(setting@),
{
    match KeyboxSource::from_str(setting) {
        Ok(source) => source,
        Err(_) => KeyboxSource::default(),
    }
}

/// A source, and whether it is the preferred one.
#[derive(Debug)]
pub struct SourceInfo {
    pub name: String,
    pub active: bool,
}

/// The sources, with the one that a setting prefers.
pub fn get_sources(setting: &str) -> (r: Vec<SourceInfo>)
    ensures
        r@.len() == 3,
        r@[0].name@ == "yurikey"@,
        r@[0].active == (preferred_source(setting@) == KeyboxSource::Yurikey),
        r@[1].name@ == "upstream"@,
        r@[1].active == (preferred_source(setting@) == KeyboxSource::Upstream),
        r@[2].name@ == "custom"@,
        r@[2].active == (preferred_source(setting@) == KeyboxSource::Custom),
{
    let active: KeyboxSource = preferred(setting);
    let mut out: Vec<SourceInfo> = Vec::new();
    out.push(
        SourceInfo { name: "yurikey".to_owned(), active: active == KeyboxSource::Yurikey },
    );
    out.push(
        SourceInfo { name: "upstream".to_owned(), active: active == KeyboxSource::Upstream },
    );
    out.push(SourceInfo { name: "custom".to_owned(), active: active == KeyboxSource::Custom });
    out
}

/// The sources in the order in which they are tried: the preferred one first, and then
/// the others.
pub open spec fn source_order(preferred: KeyboxSource) -> Seq<KeyboxSource> {
    match preferred {
        KeyboxSource::Yurikey => seq![
            KeyboxSource::Yurikey,
            KeyboxSource::Upstream,
            KeyboxSource::Custom,
        ],
        KeyboxSource::Upstream => seq![
            KeyboxSource::Upstream,
            KeyboxSource::Yurikey,
            KeyboxSource::Custom,
        ],
        KeyboxSource::Custom => seq![
            KeyboxSource::Custom,
            KeyboxSource::Yurikey,
            KeyboxSource::Upstream,
        ],
    }
}

/// The sources in the order in which they are tried.
pub fn build_source_order(preferred: KeyboxSource) -> (r: Vec<KeyboxSource>)
    ensures
        r@ == source_order(preferred),
{
    let mut order: Vec<KeyboxSource> = Vec::new();
    order.push(preferred);
    if preferred != KeyboxSource::Yurikey {
        order.push(KeyboxSource::Yurikey);
    }
    if preferred != KeyboxSource::Upstream {
        order.push(KeyboxSource::Upstream);
    }
    if preferred != KeyboxSource::Custom {
        order.push(KeyboxSource::Custom);
    }
    order
}

/// Every source is tried, and tried once, and the preferred one is tried first.
pub proof fn law_every_source_once(preferred: KeyboxSource)
    ensures
        source_order(preferred).first() == preferred,
        source_order(preferred).no_duplicates(),
        forall|source: KeyboxSource| #[trigger] source_order(preferred).contains(source),
{
    let order = source_order(preferred);
    assert forall|source: KeyboxSource| #[trigger] order.contains(source) by {
        assert(order[0] == source || order[1] == source || order[2] == source);
    }
}

/// How the keybox of a device is backed up.
pub open spec fn device_backup(device: Device, files: KeyboxFiles) -> Result<
    BackupView,
    KeyboxFailure<Seq<char>>,
> {
    match keybox_file(engine_of(device.modules), device) {
        Err(refusal) => Err(KeyboxFailure::Engine { refusal }),
        Ok(target) => target_backup(target, files),
    }
}

/// Backs up the keybox of a device.
pub fn backup(device: &Device, files: &KeyboxFiles) -> (r: Result<BackupPlan, KeyboxError>)
    ensures
        backup_answer(r) == device_backup(*device, *files),
{
    match Engine::detect(&device.modules).keybox_path(device) {
        Err(refusal) => Err(no_file(refusal)),
        Ok(target) => {
            proof {
                law_keybox_path(engine_of(device.modules), *device);
            }
            backup_target(target.as_str(), files)
        },
    }
}

/// What the addon's settings say of the keybox.
#[derive(Debug)]
pub struct KeyboxSettings {
    /// The preferred source.
    pub source: String,
    /// Where the custom source is found, empty for nowhere.
    pub custom_url: String,
}

/// Where the keybox comes from that a device has after a fetch.
#[derive(Debug, Clone, Copy, PartialEq, Eq, Structural)]
pub enum Origin {
    /// It was fetched from a source.
    Fetched { source: KeyboxSource },
    /// It was there before.
    Existing,
}

/// What came of a fetch.
#[derive(Debug)]
pub struct FetchResult {
    pub source: &'static str,
}

impl Origin {
    /// What a fetch reports that ends with a keybox of this origin.
    pub fn result(self) -> (r: FetchResult)
        ensures
            r.source@ == match self {
                Origin::Fetched { source } => label_of(source),
                Origin::Existing => "existing"@,
            },
    {
        match self {
            Origin::Fetched { source } => FetchResult { source: source_label(&source) },
            Origin::Existing => FetchResult { source: "existing" },
        }
    }
}

/// What a fetch does next.
#[derive(Debug, Clone, Copy, PartialEq, Eq, Structural)]
pub enum FetchStep {
    /// Download a keybox from a source and validate it.
    Download { source: KeyboxSource },
    /// Install the keybox that was downloaded.
    Install { source: KeyboxSource },
    /// Look whether a valid keybox is installed.
    LookForExisting,
    /// The fetch is done.
    Finish { origin: Origin },
    /// The fetch fails as the installation failed.
    Abort,
    /// The fetch fails: no source gave a valid keybox, and none is installed.
    Fail,
}

/// What came of a step of a fetch.
#[derive(Debug, Clone, Copy, PartialEq, Eq, Structural)]
pub enum FetchEvent {
    /// The download failed.
    NotDownloaded,
    /// What was downloaded is no keybox document.
    NotParsed,
    /// What was downloaded was validated.
    Checked { ok: bool },
    /// The keybox is installed, now or before.
    Installed,
    /// The keybox could not be installed.
    NotInstalled,
    /// Whether a valid keybox is installed.
    Existing { valid: bool },
}

impl FetchStep {
    /// The event is one that this step can have.
    pub open spec fn expects(self, event: FetchEvent) -> bool {
        match self {
            FetchStep::Download { .. } => event is NotDownloaded || event is NotParsed
                || event is Checked,
            FetchStep::Install { .. } => event is Installed || event is NotInstalled,
            FetchStep::LookForExisting => event is Existing,
            _ => false,
        }
    }

    /// The fetch is over.
    pub open spec fn is_end(self) -> bool {
        self is Finish || self is Abort || self is Fail
    }
}

/// A fetch under way.
#[derive(Debug)]
pub struct FetchState {
    /// The sources that are tried after the present one.
    pub rest: Vec<KeyboxSource>,
    /// There is a custom source.
    pub has_custom: bool,
    pub step: FetchStep,
}

/// A fetch under way, with its sources.
pub ghost struct FetchView {
    pub rest: Seq<KeyboxSource>,
    pub has_custom: bool,
    pub step: FetchStep,
}

impl View for FetchState {
    type V = FetchView;

    open spec fn view(&self) -> FetchView {
        FetchView { rest: self.rest@, has_custom: self.has_custom, step: self.step }
    }
}

/// The source can be tried.
pub open spec fn is_usable(source: KeyboxSource, has_custom: bool) -> bool {
    source != KeyboxSource::Custom || has_custom
}

/// A fetch that goes on with the first source that can be tried.
pub open spec fn trying(rest: Seq<KeyboxSource>, has_custom: bool) -> FetchView
    decreases rest.len(),
{
    if rest.len() == 0 {
        FetchView { rest, has_custom, step: FetchStep::LookForExisting }
    } else if !is_usable(rest.first(), has_custom) {
        trying(rest.drop_first(), has_custom)
    } else {
        FetchView {
            rest: rest.drop_first(),
            has_custom,
            step: FetchStep::Download { source: rest.first() },
        }
    }
}

fn next_source(sources: Vec<KeyboxSource>, has_custom: bool) -> (r: FetchState)
    ensures
        r@ == trying(sources@, has_custom),
{
    let mut rest: Vec<KeyboxSource> = sources;
    while rest.len() > 0
        invariant
            trying(rest@, has_custom) == trying(sources@, has_custom),
        decreases rest.len(),
    {
        let ghost before = rest@;
        let source: KeyboxSource = rest.remove(0);
        assert(rest@ == before.drop_first());
        if source != KeyboxSource::Custom || has_custom {
            return FetchState { rest, has_custom, step: FetchStep::Download { source } };
        }
    }
    FetchState { rest, has_custom, step: FetchStep::LookForExisting }
}

/// A fetch after an event: a source whose keybox is not valid gives way to the next one.
pub open spec fn after(state: FetchView, event: FetchEvent) -> FetchView {
    match state.step {
        FetchStep::Download { source } => if event == (FetchEvent::Checked { ok: true }) {
            FetchView { step: FetchStep::Install { source }, ..state }
        } else {
            trying(state.rest, state.has_custom)
        },
        FetchStep::Install { source } => if event == FetchEvent::Installed {
            FetchView {
                step: FetchStep::Finish { origin: Origin::Fetched { source } },
                ..state
            }
        } else {
            FetchView { step: FetchStep::Abort, ..state }
        },
        FetchStep::LookForExisting => if event == (FetchEvent::Existing { valid: true }) {
            FetchView { step: FetchStep::Finish { origin: Origin::Existing }, ..state }
        } else {
            FetchView { step: FetchStep::Fail, ..state }
        },
        _ => state,
    }
}

/// A fetch before its first step.
pub open spec fn fetch_start(source: Seq<char>, custom_url: Seq<char>) -> FetchView {
    trying(source_order(preferred_source(source)), custom_url.len() > 0)
}

/// Begins a fetch.
pub fn fetch(settings: &KeyboxSettings) -> (r: FetchState)
    ensures
        r@ == fetch_start(settings.source@, settings.custom_url@),
{
    let order: Vec<KeyboxSource> = build_source_order(preferred(settings.source.as_str()));
    next_source(order, !settings.custom_url.as_str().is_empty())
}

impl FetchState {
    /// Goes on with a fetch after its step.
    pub fn advance(self, event: FetchEvent) -> (r: FetchState)
        requires
            self.step.expects(event),
        ensures
            r@ == after(self@, event),
    {
        let FetchState { rest, has_custom, step } = self;
        match step {
            FetchStep::Download { source } => match event {
                FetchEvent::Checked { ok: true } => FetchState {
                    rest,
                    has_custom,
                    step: FetchStep::Install { source },
                },
                _ => next_source(rest, has_custom),
            },
            FetchStep::Install { source } => match event {
                FetchEvent::Installed => FetchState {
                    rest,
                    has_custom,
                    step: FetchStep::Finish { origin: Origin::Fetched { source } },
                },
                _ => FetchState { rest, has_custom, step: FetchStep::Abort },
            },
            FetchStep::LookForExisting => match event {
                FetchEvent::Existing { valid: true } => FetchState {
                    rest,
                    has_custom,
                    step: FetchStep::Finish { origin: Origin::Existing },
                },
                _ => FetchState { rest, has_custom, step: FetchStep::Fail },
            },
            _ => FetchState { rest, has_custom, step },
        }
    }
}

/// What the world answers to the steps of a fetch.
pub ghost struct World {
    /// What comes of a download.
    pub downloads: Map<KeyboxSource, FetchEvent>,
    /// A keybox can be installed.
    pub installs: bool,
    /// A valid keybox is installed.
    pub existing: bool,
}

impl World {
    /// The world answers every step with an event that it can have.
    pub open spec fn wf(self) -> bool {
        forall|source: KeyboxSource|
            (FetchStep::Download { source }).expects(#[trigger] self.downloads[source])
    }

    /// A source gives a valid keybox.
    pub open spec fn gives(self, source: KeyboxSource) -> bool {
        self.downloads[source] == (FetchEvent::Checked { ok: true })
    }

    /// What comes of a step.
    pub open spec fn answer(self, step: FetchStep) -> FetchEvent {
        match step {
            FetchStep::Download { source } => self.downloads[source],
            FetchStep::Install { .. } => if self.installs {
                FetchEvent::Installed
            } else {
                FetchEvent::NotInstalled
            },
            _ => FetchEvent::Existing { valid: self.existing },
        }
    }
}

/// How far a step is from the end of a fetch that has no more sources.
pub open spec fn distance(step: FetchStep) -> nat {
    match step {
        FetchStep::Download { .. } => 2,
        FetchStep::Install { .. } => 1,
        FetchStep::LookForExisting => 1,
        _ => 0,
    }
}

/// The step with which a fetch ends.
pub open spec fn end_of(state: FetchView, world: World) -> FetchStep
    decreases state.rest.len(), distance(state.step),
    via fetch_ends
{
    if state.step.is_end() {
        state.step
    } else {
        end_of(after(state, world.answer(state.step)), world)
    }
}

#[via_fn]
proof fn fetch_ends(state: FetchView, world: World) {
    lemma_trying_shortens(state.rest, state.has_custom);
}

proof fn lemma_trying_shortens(rest: Seq<KeyboxSource>, has_custom: bool)
    ensures
        trying(rest, has_custom).rest.len() < rest.len() || (trying(rest, has_custom).rest.len()
            == 0 && trying(rest, has_custom).step == FetchStep::LookForExisting),
    decreases rest.len(),
{
    if rest.len() > 0 && !is_usable(rest.first(), has_custom) {
        lemma_trying_shortens(rest.drop_first(), has_custom);
    }
}

/// The step with which a fetch ends that has these sources to try.
pub open spec fn outcome(rest: Seq<KeyboxSource>, has_custom: bool, world: World) -> FetchStep
    decreases rest.len(),
{
    if rest.len() == 0 {
        if world.existing {
            FetchStep::Finish { origin: Origin::Existing }
        } else {
            FetchStep::Fail
        }
    } else if is_usable(rest.first(), has_custom) && world.gives(rest.first()) {
        if world.installs {
            FetchStep::Finish { origin: Origin::Fetched { source: rest.first() } }
        } else {
            FetchStep::Abort
        }
    } else {
        outcome(rest.drop_first(), has_custom, world)
    }
}

proof fn lemma_outcome(rest: Seq<KeyboxSource>, has_custom: bool, world: World)
    requires
        world.wf(),
    ensures
        end_of(trying(rest, has_custom), world) == outcome(rest, has_custom, world),
    decreases rest.len(),
{
    reveal_with_fuel(end_of, 3);
    if rest.len() > 0 {
        assert((FetchStep::Download { source: rest.first() }).expects(
            world.downloads[rest.first()],
        ));
        lemma_outcome(rest.drop_first(), has_custom, world);
    }
}

proof fn lemma_outcome_at(
    rest: Seq<KeyboxSource>,
    has_custom: bool,
    world: World,
    i: int,
)
    requires
        0 <= i <= rest.len(),
        forall|j: int|
            0 <= j < i ==> !(is_usable(#[trigger] rest[j], has_custom) && world.gives(rest[j])),
    ensures
        outcome(rest, has_custom, world) == outcome(rest.skip(i), has_custom, world),
    decreases i,
{
    if i > 0 {
        let next = rest.drop_first();
        assert forall|j: int| 0 <= j < i - 1 implies !(is_usable(#[trigger] next[j], has_custom)
            && world.gives(next[j])) by {
            assert(next[j] == rest[j + 1]);
        }
        assert(!(is_usable(rest[0], has_custom) && world.gives(rest[0])));
        lemma_outcome_at(next, has_custom, world, i - 1);
        assert(next.skip(i - 1) == rest.skip(i));
    } else {
        assert(rest.skip(0) == rest);
    }
}

/// A fetch ends, whatever the world answers. It ends with the keybox of the first source,
/// in their order, that can be tried and gives a valid one; where that cannot be
/// installed, the fetch fails and tries no other source.
pub proof fn law_fetch_takes_the_first_valid_keybox(
    source: Seq<char>,
    custom_url: Seq<char>,
    world: World,
    i: int,
)
    requires
        world.wf(),
        0 <= i < 3,
        is_usable(source_order(preferred_source(source))[i], custom_url.len() > 0),
        world.gives(source_order(preferred_source(source))[i]),
        forall|j: int|
            0 <= j < i ==> !(is_usable(
                #[trigger] source_order(preferred_source(source))[j],
                custom_url.len() > 0,
            ) && world.gives(source_order(preferred_source(source))[j])),
    ensures
        end_of(fetch_start(source, custom_url), world) == if world.installs {
            FetchStep::Finish {
                origin: Origin::Fetched { source: source_order(preferred_source(source))[i] },
            }
        } else {
            FetchStep::Abort
        },
{
    let order = source_order(preferred_source(source));
    lemma_outcome(order, custom_url.len() > 0, world);
    lemma_outcome_at(order, custom_url.len() > 0, world, i);
}

/// Where no source gives a valid keybox, a fetch keeps the valid keybox that is installed,
/// and fails where there is none.
pub proof fn law_fetch_falls_back_to_the_existing_keybox(
    source: Seq<char>,
    custom_url: Seq<char>,
    world: World,
)
    requires
        world.wf(),
        forall|other: KeyboxSource|
            !(is_usable(other, custom_url.len() > 0) && #[trigger] world.gives(other)),
    ensures
        end_of(fetch_start(source, custom_url), world) == if world.existing {
            FetchStep::Finish { origin: Origin::Existing }
        } else {
            FetchStep::Fail
        },
{
    let order = source_order(preferred_source(source));
    lemma_outcome(order, custom_url.len() > 0, world);
    lemma_outcome_at(order, custom_url.len() > 0, world, 3);
}

/// What is found at the path of a custom keybox.
#[derive(Debug)]
pub enum CustomKeybox {
    Missing,
    /// The file is no keybox document.
    Unparsable,
    /// The file was validated.
    Checked { report: Report },
}

/// How a custom keybox with this digest is installed, where it is valid.
pub open spec fn custom_install(
    device: Device,
    path: Seq<char>,
    found: CustomKeybox,
    digest: Seq<char>,
    files: KeyboxFiles,
) -> Result<InstallView, KeyboxFailure<Seq<char>>> {
    match found {
        CustomKeybox::Missing => Err(KeyboxFailure::CustomMissing { path }),
        CustomKeybox::Unparsable => Err(KeyboxFailure::CustomUnparsable { path }),
        CustomKeybox::Checked { report } => if report.ok {
            install_of(device, digest, files)
        } else {
            Err(KeyboxFailure::CustomRejected { summary: faults(report) })
        },
    }
}

/// Installs the custom keybox at `path`, which has this digest.
pub fn set_custom(
    device: &Device,
    path: &str,
    found: &CustomKeybox,
    digest: &str,
    files: &KeyboxFiles,
) -> (r: Result<InstallPlan, KeyboxError>)
    ensures
        install_answer(r) == custom_install(*device, path@, *found, digest@, *files),
{
    match found {
        CustomKeybox::Missing => Err(KeyboxFailure::CustomMissing { path: path.to_owned() }),
        CustomKeybox::Unparsable => Err(
            KeyboxFailure::CustomUnparsable { path: path.to_owned() },
        ),
        CustomKeybox::Checked { report } => if report.ok {
            install_data(device, digest, files)
        } else {
            Err(KeyboxFailure::CustomRejected { summary: report.faults() })
        },
    }
}

/// A keybox command.
#[derive(Debug)]
#[allow(inconsistent_fields)]
pub enum KeyboxAction {
    Fetch,
    Validate { path: Option<String> },
    SetCustom { path: String },
    Sources,
    Generate,
    Backup,
}

/// The work that a keybox command asks for.
#[derive(Debug)]
pub enum KeyboxStep {
    /// Fetch a keybox.
    Fetch,
    /// Validate the keybox at `target` and print the report.
    Validate { target: String },
    /// Install the custom keybox at `path`.
    SetCustom { path: String },
    /// Print the sources.
    PrintSources,
    /// Generate a keybox and install it.
    Generate,
    /// Back up the keybox.
    Backup,
}

/// What a keybox step is, with its texts.
pub ghost enum KeyboxStepView {
    Fetch,
    Validate { target: Seq<char> },
    SetCustom { path: Seq<char> },
    PrintSources,
    Generate,
    Backup,
}

impl View for KeyboxStep {
    type V = KeyboxStepView;

    open spec fn view(&self) -> KeyboxStepView {
        match *self {
            KeyboxStep::Fetch => KeyboxStepView::Fetch,
            KeyboxStep::Validate { target } => KeyboxStepView::Validate { target: target@ },
            KeyboxStep::SetCustom { path } => KeyboxStepView::SetCustom { path: path@ },
            KeyboxStep::PrintSources => KeyboxStepView::PrintSources,
            KeyboxStep::Generate => KeyboxStepView::Generate,
            KeyboxStep::Backup => KeyboxStepView::Backup,
        }
    }
}

/// The work that a command asks for. Validation without a path is that of the keybox of
/// the device.
pub open spec fn keybox_step(action: KeyboxAction, device: Device) -> Result<
    KeyboxStepView,
    KeyboxFailure<Seq<char>>,
> {
    match action {
        KeyboxAction::Fetch => Ok(KeyboxStepView::Fetch),
        KeyboxAction::Validate { path: Some(path) } => Ok(
            KeyboxStepView::Validate { target: path@ },
        ),
        KeyboxAction::Validate { path: None } => match keybox_file(
            engine_of(device.modules),
            device,
        ) {
            Ok(target) => Ok(KeyboxStepView::Validate { target }),
            Err(refusal) => Err(KeyboxFailure::Engine { refusal }),
        },
        KeyboxAction::SetCustom { path } => Ok(KeyboxStepView::SetCustom { path: path@ }),
        KeyboxAction::Sources => Ok(KeyboxStepView::PrintSources),
        KeyboxAction::Generate => Ok(KeyboxStepView::Generate),
        KeyboxAction::Backup => Ok(KeyboxStepView::Backup),
    }
}

/// The work that a command asks for.
pub fn handle_keybox(action: &KeyboxAction, device: &Device) -> (r: Result<
    KeyboxStep,
    KeyboxError,
>)
    ensures
        keybox_step(*action, *device) == match r {
            Ok(step) => Ok(step@),
            Err(e) => Err(e@),
        },
{
    match action {
        KeyboxAction::Fetch => Ok(KeyboxStep::Fetch),
        KeyboxAction::Validate { path } => match path {
            Some(path) => Ok(KeyboxStep::Validate { target: path.clone() }),
            None => match Engine::detect(&device.modules).keybox_path(device) {
                Ok(target) => Ok(KeyboxStep::Validate { target }),
                Err(refusal) => Err(no_file(refusal)),
            },
        },
        KeyboxAction::SetCustom { path } => Ok(KeyboxStep::SetCustom { path: path.clone() }),
        KeyboxAction::Sources => Ok(KeyboxStep::PrintSources),
        KeyboxAction::Generate => Ok(KeyboxStep::Generate),
        KeyboxAction::Backup => Ok(KeyboxStep::Backup),
    }
}

/// What validation of the keybox at `target` comes to, once its report is printed.
pub fn validation_verdict(target: &str, ok: bool) -> (r: Result<(), KeyboxError>)
    ensures
        if ok {
            r is Ok
        } else {
            r matches Err(e) && e@ == (KeyboxFailure::ValidationFailed { path: target@ })
        },
{
    if ok {
        Ok(())
    } else {
        Err(KeyboxFailure::ValidationFailed { path: target.to_owned() })
    }
}

/// The line that reports a step which is done; `source` is where a keybox was fetched
/// from. The steps that print a document report nothing else.
pub open spec fn keybox_report(step: KeyboxStepView, source: Seq<char>) -> Option<Seq<char>> {
    match step {
        KeyboxStepView::Fetch => Some("keybox fetched from "@ + source),
        KeyboxStepView::Validate { .. } => None,
        KeyboxStepView::SetCustom { path } => Some("custom keybox installed from "@ + path),
        KeyboxStepView::PrintSources => None,
        KeyboxStepView::Generate => Some("device keybox generated"@),
        KeyboxStepView::Backup => Some("keybox backed up"@),
    }
}

impl KeyboxStep {
    /// The line that reports this step when it is done.
    pub fn report(&self, source: &str) -> (r: Option<String>)
        ensures
            text_option(r) == keybox_report(self@, source@),
    {
        match self {
            KeyboxStep::Fetch => Some(both("keybox fetched from ", source)),
            KeyboxStep::Validate { .. } => None,
            KeyboxStep::SetCustom { path } => Some(
                both("custom keybox installed from ", path.as_str()),
            ),
            KeyboxStep::PrintSources => None,
            KeyboxStep::Generate => Some("device keybox generated".to_owned()),
            KeyboxStep::Backup => Some("keybox backed up".to_owned()),
        }
    }
}

} // verus!
