use ta_enhanced::automation::target::{
    add_package, forget_auto_added, is_excluded, read_target, read_target_raw, record_auto_added,
    remove_package, strip_suffix, write_auto_added, write_target,
};
use ta_enhanced::automation::{handle_automation, AutomationAction, AutomationStep, DaemonStatus};
use ta_enhanced::device::{DataFile, Device, ModuleDir, Modules, TextFile};
use ta_enhanced::packages::PackageUids;

fn owned(items: &[&str]) -> Vec<String> {
    items.iter().map(|s| s.to_string()).collect()
}

fn dir(properties: Option<&str>) -> ModuleDir {
    ModuleDir {
        is_dir: true,
        removed: false,
        disabled: false,
        properties: properties.map(str::to_string),
    }
}

fn tricky(content: &str) -> Device {
    Device {
        modules: Modules {
            tricky: dir(None),
            tricky_hidden: dir(None),
            teesim: dir(None),
            teesim_update: dir(None),
        },
        target_mirror: TextFile::Text(content.to_string()),
        security_patch: TextFile::Missing { words: "not found".to_string() },
        config: DataFile::Missing,
        packages: PackageUids::new(),
        configured: Err("no settings".to_string()),
    }
}

fn teesim(apps: &str) -> Device {
    let config = format!(
        "{{\"version\":1,\"profiles\":{{\"p\":{{\"keybox\":\"k.xml\",\"apps\":{apps}}}}}}}"
    );
    let mut device = tricky("");
    device.modules.teesim = dir(Some("id=teesim"));
    device.config = DataFile::Data(config.into_bytes());
    device
}

#[test]
fn marks_are_stripped_from_the_end() {
    assert_eq!(strip_suffix("a!"), "a");
    assert_eq!(strip_suffix("a??"), "a");
    assert_eq!(strip_suffix("a?!"), "a");
    assert_eq!(strip_suffix("a!?"), "a!");
    assert_eq!(strip_suffix("!a"), "!a");
}

#[test]
fn patterns_exclude_packages() {
    let patterns = owned(&["com.google.*", "org.app", "*x"]);
    assert!(is_excluded("com.google.gms", &patterns));
    assert!(is_excluded("com.google.", &patterns));
    assert!(!is_excluded("com.google", &patterns));
    assert!(is_excluded("org.app", &patterns));
    assert!(!is_excluded("org.app.more", &patterns));
    assert!(!is_excluded("yx", &patterns));
    assert!(is_excluded("anything", &owned(&["*"])));
    assert!(!is_excluded("anything", &owned(&[])));
}

#[test]
fn targets_are_read_with_and_without_marks() {
    let device = tricky(" a! \n#c\n\nb?\n");
    assert_eq!(read_target(&device).unwrap(), vec!["a", "b"]);
    assert_eq!(read_target_raw(&device).unwrap(), vec!["a!", "#c", "b?"]);
    let other = teesim("[\"x\",\"y\"]");
    assert_eq!(read_target(&other).unwrap(), vec!["x", "y"]);
    assert_eq!(read_target_raw(&other).unwrap(), vec!["x", "y"]);
}

#[test]
fn tricky_lines_are_written_as_they_are() {
    let plan = write_target(&tricky(""), &owned(&["#c", " a!"])).unwrap();
    assert!(plan.config.is_none());
    assert_eq!(plan.mirror, "#c\n a!\n");
}

#[test]
fn packages_are_added_once_and_removed_again() {
    let before = tricky("#c\na!\n");
    let plan = add_package(&before, "new.app", &owned(&[])).unwrap().unwrap();
    assert_eq!(plan.mirror, "#c\na!\nnew.app\n");
    let after = tricky(&plan.mirror);
    assert_eq!(read_target_raw(&after).unwrap(), vec!["#c", "a!", "new.app"]);
    assert!(add_package(&after, "new.app?", &owned(&[])).unwrap().is_none());
    let plan = remove_package(&after, "new.app!").unwrap().unwrap();
    assert_eq!(plan.mirror, "#c\na!\n");
    assert!(remove_package(&before, "new.app").unwrap().is_none());
    assert!(add_package(&before, "a", &owned(&[])).unwrap().is_none());
    assert!(add_package(&before, "new.app", &owned(&["new.*"])).unwrap().is_none());
}

#[test]
fn excluded_packages_are_not_looked_up() {
    let mut device = tricky("");
    device.target_mirror = TextFile::Unreadable { words: "denied".to_string() };
    assert!(add_package(&device, "x", &owned(&["x"])).unwrap().is_none());
    assert!(add_package(&device, "y", &owned(&["x"])).is_err());
    assert!(remove_package(&device, "y").is_err());
}

#[test]
fn teesim_packages_go_to_the_selected_profile() {
    let plan = add_package(&teesim("[\"x\"]"), "y", &owned(&[])).unwrap().unwrap();
    assert_eq!(plan.mirror, "x\ny\n");
    let mut after = teesim("[]");
    after.config = DataFile::Data(plan.config.unwrap());
    assert_eq!(read_target(&after).unwrap(), vec!["x", "y"]);
    assert_eq!(
        match remove_package(&teesim("[\"x\"]"), "x") {
            Ok(_) => panic!("written"),
            Err(e) => e.message(),
        },
        "TEESimulator profile p has no apps"
    );
}

#[test]
fn the_record_remembers_and_forgets() {
    assert_eq!(record_auto_added("", "a").unwrap(), "a\n");
    assert_eq!(record_auto_added("a", "b").unwrap(), "a\nb\n");
    assert_eq!(record_auto_added("a\n", "b!").unwrap(), "a\nb!\n");
    assert_eq!(record_auto_added("x\n a? \n", "a"), None);
    let record = TextFile::Text("a\r\n b! \nc".to_string());
    assert_eq!(forget_auto_added(&record, "b").unwrap().unwrap(), "a\nc\n");
    assert_eq!(forget_auto_added(&record, "x").unwrap().unwrap(), "a\n b! \nc\n");
    assert_eq!(forget_auto_added(&TextFile::Missing { words: "not found".to_string() }, "x").unwrap(), None);
    assert_eq!(
        forget_auto_added(&TextFile::Unreadable { words: "denied".to_string() }, "x").unwrap_err().message(),
        "denied"
    );
    assert_eq!(write_auto_added(&owned(&["a", "b"])), "a\nb\n");
    assert_eq!(write_auto_added(&owned(&[])), "");

    let empty = record_auto_added("a\n", "").unwrap();
    assert_eq!(empty, "a\n\n");
    assert_eq!(record_auto_added(&empty, ""), None);
    assert_eq!(forget_auto_added(&TextFile::Text(empty), "").unwrap().unwrap(), "a\n");

    let recorded = record_auto_added("a\nb", "c").unwrap();
    assert_eq!(record_auto_added(&recorded, "c"), None);
    assert_eq!(
        forget_auto_added(&TextFile::Text(recorded), "c").unwrap().unwrap(),
        "a\nb\n"
    );
}

#[test]
fn commands_ask_for_their_work() {
    let report = |action: AutomationAction, enabled: bool| {
        handle_automation(&action, enabled).report(3)
    };
    for enabled in [false, true] {
        assert_eq!(
            report(AutomationAction::SyncTarget, enabled).as_deref(),
            Some("target synchronized")
        );
        assert_eq!(
            report(AutomationAction::ExportTarget, enabled).as_deref(),
            Some("target synchronized")
        );
        assert_eq!(
            report(AutomationAction::ProfileReady, enabled).as_deref(),
            Some("profile ready")
        );
        assert_eq!(report(AutomationAction::Profiles, enabled), None);
        assert_eq!(
            report(AutomationAction::SelectProfile { name: "x".to_string() }, enabled).as_deref(),
            Some("TEESimulator profile selection updated")
        );
    }
    for action in [AutomationAction::Status, AutomationAction::Check, AutomationAction::Cleanup] {
        assert_eq!(report(action, false).as_deref(), Some("automation disabled"));
    }
    assert_eq!(report(AutomationAction::Status, true), None);
    assert_eq!(
        report(AutomationAction::Check, true).as_deref(),
        Some("added 3 new packages to target")
    );
    assert_eq!(
        report(AutomationAction::Cleanup, true).as_deref(),
        Some("removed 3 stale entries from target")
    );
}

#[test]
fn selecting_a_profile_trims_the_choice_alone() {
    let select = |name: &str| {
        handle_automation(&AutomationAction::SelectProfile { name: name.to_string() }, false)
    };
    match select(" p ") {
        AutomationStep::Select { choice, setting, export } => {
            assert_eq!((choice.as_str(), setting.as_str(), export), ("p", " p ", true));
        }
        other => panic!("{other:?}"),
    }
    match select("  ") {
        AutomationStep::Select { choice, setting, export } => {
            assert_eq!((choice.as_str(), setting.as_str(), export), ("", "  ", false));
        }
        other => panic!("{other:?}"),
    }
}

#[test]
fn the_status_of_the_daemon_is_plain_data() {
    let status = DaemonStatus {
        running: true,
        pid: Some(7),
        target_count: 2,
        last_activity: None,
    };
    assert!(status.running && status.pid == Some(7) && status.target_count == 2);
    assert_eq!(status.last_activity, None);
}
