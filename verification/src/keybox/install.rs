//! How a keybox gets to its place: what is kept of the one before, and what is written.
use crate::config::{config_fault, is_file_char, is_keybox_name, law_valid_profiles, profiles_of};
use crate::device::Device;
use crate::engine::{engine_of, keybox_file, stored_config, Engine, TEESIM_DATA, TRICKY_DATA};
use crate::error::Refusal;
use crate::json::{lemma_lookup_at, lookup};
use crate::keybox::error::{no_file, KeyboxError, KeyboxFailure};
use crate::profiles::{selected_name, selected_object, setting_of, text_option};
use crate::text::{both, same};
use vstd::prelude::*;

verus! {

/// The permissions of a keybox that only its owner may read.
pub const PRIVATE_MODE: u32 = 0o600;

/// The permissions of a keybox that everyone may read.
pub const SHARED_MODE: u32 = 0o644;

/// The path of an XML file.
pub open spec fn is_keybox_path(path: Seq<char>) -> bool {
    &&& ".xml"@.is_suffix_of(path)
    &&& path.len() > 4
    &&& path[path.len() - 5] != '/'
}

/// The path of the copy that is kept of the keybox at `target`: the extension `xml` becomes
/// `xml.bak`.
pub open spec fn kept_path(target: Seq<char>) -> Seq<char> {
    target + ".bak"@
}

/// The path of the copy that is kept of the keybox at `target`.
pub fn backup_path(target: &str) -> (r: String)
    requires
        is_keybox_path(target@),
    ensures
        r@ == kept_path(target@),
{
    both(target, ".bak")
}

/// What is found where a keybox stands or is to stand.
#[derive(Debug)]
pub struct KeyboxFiles {
    /// There is such a file.
    pub exists: bool,
    /// There is a copy of an earlier keybox.
    pub backup_exists: bool,
    /// The digest of the file, where it could be read.
    pub digest: Option<String>,
    /// The file passes validation.
    pub valid: bool,
}

/// How a keybox is backed up: move the copy at `copy` to `rotated` where that is given,
/// and then copy the keybox at `target` to `copy`.
#[derive(Debug)]
pub struct BackupPlan {
    pub target: String,
    pub copy: String,
    pub rotated: Option<String>,
}

/// How a keybox is backed up, with its texts.
pub ghost struct BackupView {
    pub target: Seq<char>,
    pub copy: Seq<char>,
    pub rotated: Option<Seq<char>>,
}

impl View for BackupPlan {
    type V = BackupView;

    open spec fn view(&self) -> BackupView {
        BackupView { target: self.target@, copy: self.copy@, rotated: text_option(self.rotated) }
    }
}

/// How the keybox at `target` is backed up. The copy before it is kept once more.
pub open spec fn backup_of(target: Seq<char>, backup_exists: bool) -> BackupView {
    BackupView {
        target,
        copy: kept_path(target),
        rotated: if backup_exists {
            Some(kept_path(target) + ".1"@)
        } else {
            None
        },
    }
}

fn plan_backup(target: &str, backup_exists: bool) -> (r: BackupPlan)
    requires
        is_keybox_path(target@),
    ensures
        r@ == backup_of(target@, backup_exists),
{
    let copy: String = backup_path(target);
    let rotated: Option<String> = if backup_exists {
        Some(both(copy.as_str(), ".1"))
    } else {
        None
    };
    BackupPlan { target: target.to_owned(), copy, rotated }
}

/// How the keybox at `target` is backed up, where there is one.
pub open spec fn target_backup(target: Seq<char>, files: KeyboxFiles) -> Result<
    BackupView,
    KeyboxFailure<Seq<char>>,
> {
    if files.exists {
        Ok(backup_of(target, files.backup_exists))
    } else {
        Err(KeyboxFailure::NothingToBackUp { path: target })
    }
}

/// What came of a request for a backup.
pub open spec fn backup_answer(r: Result<BackupPlan, KeyboxError>) -> Result<
    BackupView,
    KeyboxFailure<Seq<char>>,
> {
    match r {
        Ok(plan) => Ok(plan@),
        Err(e) => Err(e@),
    }
}

/// Backs up the keybox at `target`.
pub fn backup_target(target: &str, files: &KeyboxFiles) -> (r: Result<BackupPlan, KeyboxError>)
    requires
        is_keybox_path(target@),
    ensures
        backup_answer(r) == target_backup(target@, *files),
{
    if !files.exists {
        return Err(KeyboxFailure::NothingToBackUp { path: target.to_owned() });
    }
    Ok(plan_backup(target, files.backup_exists))
}

/// The digest of the installed keybox, where there is one to compare with.
pub open spec fn known_digest(digest: Option<Seq<char>>) -> Option<Seq<char>> {
    match digest {
        Some(text) => if text.len() == 0 {
            None
        } else {
            Some(text)
        },
        None => None,
    }
}

/// The digest of the installed keybox, where there is one to compare with.
pub fn current_keybox_hash(digest: &Option<String>) -> (r: Option<&String>)
    ensures
        known_digest(text_option(*digest)) == match r {
            Some(text) => Some(text@),
            None => None,
        },
{
    match digest {
        Some(text) => if text.as_str().is_empty() {
            None
        } else {
            Some(text)
        },
        None => None,
    }
}

/// How a keybox is installed.
#[derive(Debug)]
pub enum InstallPlan {
    /// The keybox is installed already.
    Identical,
    /// Back up the keybox before, where there is one, and write the keybox to `target`
    /// with these permissions.
    Write { target: String, backup: Option<BackupPlan>, mode: u32 },
}

/// How a keybox is installed, with its texts.
pub ghost enum InstallView {
    Identical,
    Write { target: Seq<char>, backup: Option<BackupView>, mode: u32 },
}

impl View for InstallPlan {
    type V = InstallView;

    open spec fn view(&self) -> InstallView {
        match *self {
            InstallPlan::Identical => InstallView::Identical,
            InstallPlan::Write { target, backup, mode } => InstallView::Write {
                target: target@,
                backup: match backup {
                    Some(plan) => Some(plan@),
                    None => None,
                },
                mode,
            },
        }
    }
}

/// How a keybox with this digest is installed on a device. An empty digest is that of
/// no keybox.
pub open spec fn install_of(device: Device, digest: Seq<char>, files: KeyboxFiles) -> Result<
    InstallView,
    KeyboxFailure<Seq<char>>,
> {
    match keybox_file(engine_of(device.modules), device) {
        Err(refusal) => Err(KeyboxFailure::Engine { refusal }),
        Ok(target) => Ok(
            if digest.len() > 0 && text_option(files.digest) == Some(digest) {
                InstallView::Identical
            } else {
                InstallView::Write {
                    target,
                    backup: if files.exists {
                        Some(backup_of(target, files.backup_exists))
                    } else {
                        None
                    },
                    mode: PRIVATE_MODE,
                }
            },
        ),
    }
}

/// What came of a request for an installation.
pub open spec fn install_answer(r: Result<InstallPlan, KeyboxError>) -> Result<
    InstallView,
    KeyboxFailure<Seq<char>>,
> {
    match r {
        Ok(plan) => Ok(plan@),
        Err(e) => Err(e@),
    }
}

/// Installs a keybox with this digest.
pub fn install_data(device: &Device, digest: &str, files: &KeyboxFiles) -> (r: Result<
    InstallPlan,
    KeyboxError,
>)
    ensures
        install_answer(r) == install_of(*device, digest@, *files),
{
    match Engine::detect(&device.modules).keybox_path(device) {
        Err(refusal) => Err(no_file(refusal)),
        Ok(target) => {
            let identical: bool = match current_keybox_hash(&files.digest) {
                Some(text) => !digest.is_empty() && same(text.as_str(), digest),
                None => false,
            };
            if identical {
                return Ok(InstallPlan::Identical);
            }
            proof {
                law_keybox_path(engine_of(device.modules), *device);
            }
            let backup: Option<BackupPlan> = if files.exists {
                Some(plan_backup(target.as_str(), files.backup_exists))
            } else {
                None
            };
            Ok(InstallPlan::Write { target, backup, mode: PRIVATE_MODE })
        },
    }
}

/// Whether a device has a keybox that passes validation.
pub open spec fn is_kept(device: Device, files: KeyboxFiles) -> bool {
    keybox_file(engine_of(device.modules), device) is Ok && files.exists && files.valid
}

/// Whether a device has a keybox that passes validation.
pub fn has_valid_existing_keybox(device: &Device, files: &KeyboxFiles) -> (r: bool)
    ensures
        r == is_kept(*device, *files),
{
    match Engine::detect(&device.modules).keybox_path(device) {
        Err(_) => false,
        Ok(_) => files.exists && files.valid,
    }
}

/// Every keybox file is an XML file. That of TrickyStore is one file; that of
/// TEESimulator lies in its data directory, and in no other directory.
pub proof fn law_keybox_path(engine: Engine, device: Device)
    ensures
        keybox_file(engine, device) matches Ok(path) ==> {
            &&& is_keybox_path(path)
            &&& engine is TrickyStore ==> path == TRICKY_DATA@ + "/keybox.xml"@
            &&& engine is TeeSimulatorV4 ==> exists|name: Seq<char>|
                #[trigger] is_keybox_name(name) && !name.contains('/') && path == TEESIM_DATA@
                    + "/"@ + name
        },
{
    reveal_strlit(".xml");
    reveal_strlit("/");
    reveal_strlit("/keybox.xml");
    match engine {
        Engine::TrickyStore => {
            let path = TRICKY_DATA@ + "/keybox.xml"@;
            assert(path.skip(path.len() - 4) == ".xml"@);
        },
        Engine::TeeSimulatorV4 => {
            if keybox_file(engine, device) is Ok {
                let config = stored_config(device.config, device.packages@)->Ok_0;
                assert(config_fault(config, device.packages@) is None);
                let configured = setting_of(device.configured);
                let selected = selected_name(config, configured)->Ok_0;
                let profiles = profiles_of(config)->0;
                lemma_lookup_at(profiles, selected);
                let i = choose|k: int|
                    0 <= k < profiles.len() && #[trigger] profiles[k].0 == selected && Some(
                        profiles[k].1,
                    ) == lookup(profiles, selected);
                law_valid_profiles(config, device.packages@, i);
                let name = selected_object(config, configured)->Ok_0.field("keybox"@)->0->Text_0;
                assert(is_keybox_name(name));
                let path = TEESIM_DATA@ + "/"@ + name;
                assert(path.skip(path.len() - 4) == name.skip(name.len() - 4));
                assert(is_file_char(name[name.len() - 5]));
                assert forall|k: int| 0 <= k < name.len() implies name[k] != '/' by {
                    assert(is_file_char(name[k]));
                }
            }
        },
    }
}

/// A keybox that is installed already is not written again.
pub proof fn law_installing_twice_writes_once(device: Device, digest: Seq<char>, files: KeyboxFiles)
    requires
        keybox_file(engine_of(device.modules), device) is Ok,
        digest.len() > 0,
        text_option(files.digest) == Some(digest),
    ensures
        install_of(device, digest, files) == Ok::<InstallView, KeyboxFailure<Seq<char>>>(
            InstallView::Identical,
        ),
{
}

/// Where a keybox is replaced, it is copied first, to another file; and where a copy is in
/// the way of that, the copy is moved first, to a third file.
pub proof fn law_replaced_keybox_is_kept(device: Device, digest: Seq<char>, files: KeyboxFiles)
    ensures
        install_of(device, digest, files) matches Ok(InstallView::Write { target, backup, .. })
            ==> {
            &&& keybox_file(engine_of(device.modules), device) == Ok::<
                Seq<char>,
                Refusal<Seq<char>>,
            >(target)
            &&& backup is Some <==> files.exists
            &&& backup matches Some(plan) ==> plan.target == target && plan.copy != target && (
            plan.rotated is Some <==> files.backup_exists) && (plan.rotated matches Some(rotated)
                ==> rotated != target && rotated != plan.copy)
        },
{
    reveal_strlit(".bak");
    reveal_strlit(".1");
}

} // verus!
