use ta_enhanced::codec::read_json;
use ta_enhanced::config::validate_teesim_config;
use ta_enhanced::device::{DataFile, Device, ModuleDir, Modules, TextFile};
use ta_enhanced::engine::{
    ensure_profile_selected, export_target_mirror, import_legacy_patch, import_target_mirror,
    module_is_present, parse_teesim_config, profile_status, read_patch_dates, read_targets,
    teesim_config_path, validate_profile_choice, write_patch_dates, write_targets, Engine,
};
use ta_enhanced::error::Refusal;
use ta_enhanced::json::Json;
use ta_enhanced::packages::PackageUids;
use ta_enhanced::profiles::selected_profile_name;

const ONE: &str = r#"{"version": 1, "profiles": {
    "default": {"keybox": "keybox.xml", "apps": ["com.example", "com.second"]}}}"#;

const TWO: &str = r#"{"version": 1, "future": {"x": 1.5}, "profiles": {
    "default": {"keybox": "keybox.xml", "apps": ["com.example"], "mode": "patch",
        "patchLevel": {"system": "2025-01", "note": "kept"}},
    "banking": {"keybox": "bank.xml", "apps": ["com.bank"]}}}"#;

fn owned(items: &[&str]) -> Vec<String> {
    items.iter().map(|s| s.to_string()).collect()
}

fn dir(is_dir: bool, properties: Option<&str>) -> ModuleDir {
    ModuleDir {
        is_dir,
        removed: false,
        disabled: false,
        properties: properties.map(str::to_string),
    }
}

fn modules(teesim: bool) -> Modules {
    Modules {
        tricky: dir(true, None),
        tricky_hidden: dir(false, None),
        teesim: dir(teesim, Some("name=x\nid=teesim\n")),
        teesim_update: dir(false, None),
    }
}

fn tricky() -> Device {
    Device {
        modules: modules(false),
        target_mirror: TextFile::Missing { words: "not found".to_string() },
        security_patch: TextFile::Missing { words: "not found".to_string() },
        config: DataFile::Missing,
        packages: PackageUids::new(),
        configured: Ok(String::new()),
    }
}

fn teesim(config: &str) -> Device {
    Device {
        modules: modules(true),
        config: DataFile::Data(config.as_bytes().to_vec()),
        ..tricky()
    }
}

fn fault(config: &str) -> String {
    let document = read_json(config.as_bytes()).unwrap();
    validate_teesim_config(&document, &PackageUids::new()).unwrap_err().message()
}

#[test]
fn engines_are_detected() {
    assert_eq!(Engine::detect(&modules(true)), Engine::TeeSimulatorV4);
    assert_eq!(Engine::detect(&modules(false)), Engine::TrickyStore);

    let mut update = modules(false);
    update.teesim_update = dir(true, Some("id=teesim"));
    assert_eq!(Engine::detect(&update), Engine::TeeSimulatorV4);
    assert_eq!(
        Engine::TeeSimulatorV4.module_dir(&update),
        Some("/data/adb/modules_update/teesim")
    );

    assert!(!module_is_present(&dir(true, Some("id=teesim2\n id=teesim"))));
    assert!(!module_is_present(&dir(true, None)));
    assert!(!module_is_present(&dir(false, Some("id=teesim"))));
    assert!(!module_is_present(&ModuleDir { removed: true, ..dir(true, Some("id=teesim")) }));
}

#[test]
fn module_directories_and_switches() {
    let mut found = modules(true);
    assert_eq!(Engine::TrickyStore.module_dir(&found), Some("/data/adb/modules/tricky_store"));
    assert_eq!(Engine::TeeSimulatorV4.module_dir(&found), Some("/data/adb/modules/teesim"));
    assert!(Engine::TrickyStore.is_enabled(&found));
    found.tricky.disabled = true;
    assert!(!Engine::TrickyStore.is_enabled(&found));
    found.tricky.removed = true;
    assert_eq!(Engine::TrickyStore.module_dir(&found), None);
    assert!(!Engine::TrickyStore.is_enabled(&found));
    found.tricky_hidden.is_dir = true;
    assert_eq!(Engine::TrickyStore.module_dir(&found), Some("/data/adb/modules/.tricky_store"));
    assert!(Engine::TrickyStore.is_enabled(&found));
    found.teesim.disabled = true;
    assert!(!Engine::TeeSimulatorV4.is_enabled(&found));
}

#[test]
fn keybox_paths() {
    assert_eq!(
        Engine::TrickyStore.keybox_path(&tricky()).unwrap(),
        "/data/adb/tricky_store/keybox.xml"
    );
    let mut device = teesim(TWO);
    device.configured = Ok("banking".to_string());
    assert_eq!(
        Engine::TeeSimulatorV4.keybox_path(&device).unwrap(),
        "/data/adb/teesim/bank.xml"
    );
    device.configured = Err("no settings".to_string());
    let error = Engine::TeeSimulatorV4.keybox_path(&device).unwrap_err();
    assert_eq!(error, Refusal::SettingsFailed { words: "no settings".to_string() });
    assert_eq!(error.message(), "no settings");
}

#[test]
fn configs_are_read() {
    assert_eq!(teesim_config_path(), "/data/adb/teesim/config.json");
    let missing = Device { config: DataFile::Missing, ..teesim(ONE) };
    assert_eq!(
        read_targets(&missing).unwrap_err().message(),
        "TEESimulator config does not exist at /data/adb/teesim/config.json"
    );
    let unreadable = Device { config: DataFile::Unreadable, ..teesim(ONE) };
    assert_eq!(
        read_targets(&unreadable).unwrap_err().message(),
        "failed to read /data/adb/teesim/config.json"
    );
    assert_eq!(
        read_targets(&teesim("{")).unwrap_err().message(),
        "invalid TEESimulator config at /data/adb/teesim/config.json"
    );
    assert_eq!(read_targets(&teesim(ONE)).unwrap(), vec!["com.example", "com.second"]);
    let none = PackageUids::new();
    assert!(parse_teesim_config(ONE.as_bytes(), "/x", &none).is_ok());
    assert_eq!(
        parse_teesim_config(b"", "/x", &none).unwrap_err(),
        Refusal::InvalidConfig { path: "/x".to_string() }
    );
}

#[test]
fn every_fault_of_a_config_has_its_words() {
    let profile = |body: &str| format!("{{\"version\":1,\"profiles\":{{\"p\":{body}}}}}");
    assert_eq!(fault("[]"), "TEESimulator config root must be an object");
    let version = "unsupported TEESimulator config schema (expected version 1)";
    assert_eq!(fault("{}"), version);
    assert_eq!(fault("{\"version\":1.0}"), version);
    assert_eq!(fault("{\"version\":2}"), version);
    assert_eq!(fault("{\"version\":1}"), "TEESimulator profiles must be an object");
    assert_eq!(
        fault("{\"version\":1,\"profiles\":{}}"),
        "TEESimulator profiles must not be empty"
    );
    assert_eq!(
        fault("{\"version\":1,\"profiles\":{\"a b\":{}}}"),
        "TEESimulator profile name is invalid: a b"
    );
    let long = "x".repeat(33);
    assert_eq!(
        fault(&format!("{{\"version\":1,\"profiles\":{{\"{long}\":{{}}}}}}")),
        format!("TEESimulator profile name is invalid: {long}")
    );
    assert_eq!(fault(&profile("1")), "TEESimulator profile p must be an object");
    assert_eq!(fault(&profile("{}")), "TEESimulator profile p has no keybox");
    assert_eq!(
        fault(&profile("{\"keybox\":\"x\"}")),
        "TEESimulator profile p keybox must be an XML filename"
    );
    let keyed = |rest: &str| profile(&format!("{{\"keybox\":\"k.xml\"{rest}}}"));
    assert_eq!(fault(&keyed(",\"apps\":1")), "TEESimulator profile p apps must be an array");
    assert_eq!(
        fault(&keyed(",\"autoIncludeNewApps\":1")),
        "TEESimulator profile p autoIncludeNewApps must be a boolean"
    );
    assert_eq!(
        fault(&keyed(",\"mode\":1")),
        "TEESimulator profile p mode must be patch or generation"
    );
    assert_eq!(
        fault(&keyed(",\"patchLevel\":1")),
        "TEESimulator profile p patchLevel must be an object"
    );
    assert_eq!(
        fault(&keyed(",\"patchLevel\":{\"boot\":1}")),
        "TEESimulator profile p patchLevel.boot must be a string"
    );
    assert_eq!(
        fault(&keyed(",\"patchLevel\":{\"system\":\"\",\"vendor\":\"x\"}")),
        "TEESimulator profile p has invalid patchLevel.vendor: x"
    );
    assert_eq!(fault(&keyed("")), "TEESimulator profile p has no apps");
    assert_eq!(
        fault(&keyed(",\"apps\":[1]")),
        "TEESimulator profile p apps must contain strings"
    );
    assert_eq!(
        fault(&keyed(",\"apps\":[\"a!\"]")),
        "TEESimulator profile p has invalid app entry: a!"
    );
}

#[test]
fn profiles_do_not_share_apps() {
    let two = |a: &str, b: &str| {
        format!(
            "{{\"version\":1,\"profiles\":{{\"a\":{{\"keybox\":\"k.xml\"{a}}},\
             \"b\":{{\"keybox\":\"k.xml\"{b}}}}}}}"
        )
    };
    assert_eq!(
        fault(&two(",\"apps\":[\"x\",\"y\"]", ",\"apps\":[\"y\"]")),
        "TEESimulator app entry appears in profiles a and b: y"
    );
    assert_eq!(
        fault(&two(",\"autoIncludeNewApps\":true", ",\"autoIncludeNewApps\":true")),
        "only one TEESimulator profile may auto-include new apps"
    );
    assert_eq!(
        fault(&two(",\"apps\":[\"uid:5\"]", ",\"apps\":[\"uid:+5\"]")),
        "TEESimulator UID 5 is claimed by profiles a and b"
    );
    let mut packages = PackageUids::new();
    packages.insert("x".to_string(), 10001);
    packages.insert("y".to_string(), 10001);
    let document =
        read_json(two(",\"apps\":[\"x\",\"x\"]", ",\"apps\":[\"y\"]").as_bytes()).unwrap();
    assert_eq!(
        validate_teesim_config(&document, &packages).unwrap_err(),
        Refusal::UidClaimed { uid: 10001, owner: "a".to_string(), name: "b".to_string() }
    );
    assert!(validate_teesim_config(&document, &PackageUids::new()).is_ok());
}

#[test]
fn the_selected_profile() {
    let none = Ok(String::new());
    let document = read_json(TWO.as_bytes()).unwrap();
    assert_eq!(
        selected_profile_name(&document, &none).unwrap_err().message(),
        "TEESimulator has multiple profiles; select one in the addon WebUI or run: \
         ta-enhanced automation select-profile <name>"
    );
    assert_eq!(
        selected_profile_name(&document, &Ok("x".to_string())).unwrap_err().message(),
        "configured TEESimulator profile does not exist: x"
    );
    assert_eq!(
        selected_profile_name(&document, &Ok("banking".to_string())).unwrap(),
        "banking"
    );
    let single = read_json(ONE.as_bytes()).unwrap();
    assert_eq!(selected_profile_name(&single, &Err("no settings".to_string())).unwrap(), "default");
    assert_eq!(
        selected_profile_name(&Json::Null, &none).unwrap_err(),
        Refusal::ProfilesNotObject
    );

    assert!(ensure_profile_selected(&tricky()).is_ok());
    assert!(ensure_profile_selected(&teesim(ONE)).is_ok());
    assert_eq!(ensure_profile_selected(&teesim(TWO)), Err(Refusal::NoProfileSelected));
}

#[test]
fn choices_and_status_agree_with_the_selection() {
    let device = teesim(TWO);
    assert!(validate_profile_choice(&device, "").is_ok());
    assert!(validate_profile_choice(&tricky(), "x").is_ok());
    assert_eq!(
        validate_profile_choice(&device, "x").unwrap_err().message(),
        "TEESimulator profile does not exist: x"
    );
    assert!(validate_profile_choice(&device, "banking").is_ok());

    let chosen = Device { configured: Ok("banking".to_string()), ..teesim(TWO) };
    assert!(ensure_profile_selected(&chosen).is_ok());
    let status = profile_status(&chosen, "banking").unwrap();
    assert!(status.available);
    assert_eq!(status.profiles, vec!["banking", "default"]);
    assert_eq!(status.selected.as_deref(), Some("banking"));
    assert!(!profile_status(&tricky(), "banking").unwrap().available);
}

#[test]
fn tricky_targets_are_written_and_read() {
    let plan = write_targets(&tricky(), &owned(&[" a! ", "", "#c", "b"])).unwrap();
    assert!(plan.config.is_none());
    assert_eq!(plan.mirror, "a!\n#c\nb\n");
    let after = Device { target_mirror: TextFile::Text(plan.mirror), ..tricky() };
    assert_eq!(read_targets(&after).unwrap(), vec!["a!", "b"]);
}

#[test]
fn teesim_targets_are_written_and_read() {
    let device = Device { configured: Ok("default".to_string()), ..teesim(TWO) };
    let plan = write_targets(&device, &owned(&["new.app!", " new.app", "other.app?"])).unwrap();
    assert_eq!(plan.mirror, "new.app\nother.app\n");
    let data = plan.config.unwrap();
    assert_eq!(data.last(), Some(&b'\n'));
    let after = read_json(&data).unwrap();
    let before = read_json(TWO.as_bytes()).unwrap();
    assert_eq!(after.get("future"), before.get("future"));
    let profiles = after.get("profiles").unwrap();
    assert_eq!(
        profiles.get("banking"),
        before.get("profiles").unwrap().get("banking")
    );
    assert_eq!(profiles.get("default").unwrap().get("mode"), Some(&Json::Text("patch".into())));
    let written = Device {
        config: DataFile::Data(data),
        configured: Ok("default".to_string()),
        ..teesim(TWO)
    };
    assert_eq!(read_targets(&written).unwrap(), vec!["new.app", "other.app"]);
}

#[test]
fn teesim_refuses_targets_that_would_spoil_the_config() {
    let device = Device { configured: Ok("default".to_string()), ..teesim(TWO) };
    let refusal = |entries: &[&str]| match write_targets(&device, &owned(entries)) {
        Ok(_) => panic!("written"),
        Err(e) => e.message(),
    };
    assert_eq!(
        refusal(&["x", "com.bank", "com.bank!"]),
        "apps already assigned to another TEESimulator profile: com.bank"
    );
    assert_eq!(refusal(&["a b"]), "TEESimulator profile default has invalid app entry: a b");
    assert_eq!(refusal(&[]), "TEESimulator profile default has no apps");
}

#[test]
fn mirrors_are_exported_and_imported() {
    assert_eq!(export_target_mirror(&tricky()).unwrap(), None);
    assert!(import_target_mirror(&tricky()).unwrap().is_none());
    let mirror = export_target_mirror(&teesim(ONE)).unwrap().unwrap();
    assert_eq!(mirror, "com.example\ncom.second\n");
    let device = Device { target_mirror: TextFile::Text(mirror), ..teesim(ONE) };
    let plan = import_target_mirror(&device).unwrap().unwrap();
    let after = Device { config: DataFile::Data(plan.config.unwrap()), ..teesim(ONE) };
    assert_eq!(read_targets(&after).unwrap(), read_targets(&teesim(ONE)).unwrap());

    let twice = ONE.replace("\"com.second\"", "\"com.second\", \"com.example\"");
    let mirror = export_target_mirror(&teesim(&twice)).unwrap().unwrap();
    assert_eq!(mirror, "com.example\ncom.second\ncom.example\n");
    let device = Device { target_mirror: TextFile::Text(mirror), ..teesim(&twice) };
    let plan = import_target_mirror(&device).unwrap().unwrap();
    let after = Device { config: DataFile::Data(plan.config.unwrap()), ..teesim(&twice) };
    assert_eq!(read_targets(&after).unwrap(), vec!["com.example", "com.second"]);
}

#[test]
fn patch_levels_are_written_and_read() {
    let device = Device { configured: Ok("default".to_string()), ..teesim(TWO) };
    assert_eq!(
        read_patch_dates(&device).unwrap(),
        ("2025-01".to_string(), String::new(), String::new())
    );
    let data = write_patch_dates(&device, "20250105", "prop", " no ").unwrap();
    let document = read_json(&data).unwrap();
    let profile = document.get("profiles").unwrap().get("default").unwrap();
    assert_eq!(
        profile.get("patchLevel").unwrap().get("note"),
        Some(&Json::Text("kept".to_string()))
    );
    let after = Device {
        config: DataFile::Data(data),
        configured: Ok("default".to_string()),
        ..teesim(TWO)
    };
    assert_eq!(
        read_patch_dates(&after).unwrap(),
        ("2025-01-05".to_string(), "system_property".to_string(), "no".to_string())
    );
    assert_eq!(
        write_patch_dates(&device, "x", "y", "z").unwrap_err(),
        Refusal::InvalidPatchValue { value: "x".to_string() }
    );
}

#[test]
fn legacy_levels_are_imported() {
    let levels = |file: TextFile| {
        let device = Device { security_patch: file, ..teesim(ONE) };
        let data = import_legacy_patch(&device).unwrap();
        read_patch_dates(&Device { config: DataFile::Data(data), ..teesim(ONE) }).unwrap()
    };
    let three = |a: &str, b: &str, c: &str| (a.to_string(), b.to_string(), c.to_string());
    assert_eq!(levels(TextFile::Missing { words: "not found".to_string() }), three("no", "no", "no"));
    assert_eq!(
        levels(TextFile::Text("system=20250105\nvendor=today\n".to_string())),
        three("2025-01-05", "no", "today")
    );
    assert_eq!(
        levels(TextFile::Text("boot=no\nall=202501".to_string())),
        three("2025-01", "2025-01", "2025-01")
    );
    let unreadable = Device { security_patch: TextFile::Unreadable { words: "denied".to_string() }, ..teesim(ONE) };
    let error = import_legacy_patch(&unreadable).unwrap_err();
    assert_eq!(
        error,
        Refusal::FileFailed {
            path: "/data/adb/tricky_store/security_patch.txt".to_string(),
            words: "denied".to_string(),
        }
    );
    assert_eq!(error.message(), "denied");
    assert_eq!(read_patch_dates(&tricky()).unwrap_err().message(), "not found");
    let text = Device { security_patch: TextFile::Text("boot=5".to_string()), ..tricky() };
    assert_eq!(read_patch_dates(&text).unwrap(), three("", "5", ""));
}
