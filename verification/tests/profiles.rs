use ta_enhanced::config::validate_teesim_config;
use ta_enhanced::engine::profile_keybox_path;
use ta_enhanced::error::Refusal;
use ta_enhanced::json::{Json, JsonNumber};
use ta_enhanced::packages::PackageUids;
use ta_enhanced::profiles::{
    profile_apps, profile_status_for, selected_profile, update_patch_levels,
    update_profile_apps, update_profile_apps_for,
};

fn text(s: &str) -> Json {
    Json::Text(s.to_string())
}

fn number(n: u64) -> Json {
    Json::Number(JsonNumber::Unsigned(n))
}

fn list(items: &[&str]) -> Json {
    Json::Array(items.iter().map(|s| text(s)).collect())
}

fn object(entries: Vec<(&str, Json)>) -> Json {
    Json::object(entries.into_iter().map(|(k, v)| (k.to_string(), v)).collect())
}

fn at<'a>(value: &'a Json, path: &[&str]) -> &'a Json {
    path.iter().fold(value, |v, key| v.get(key).unwrap())
}

fn no_packages() -> PackageUids {
    PackageUids::new()
}

fn two_profiles() -> Json {
    object(vec![
        ("version", number(1)),
        (
            "profiles",
            object(vec![
                (
                    "default",
                    object(vec![
                        ("keybox", text("keybox.xml")),
                        ("apps", list(&["old.app"])),
                        ("autoIncludeNewApps", Json::Bool(true)),
                    ]),
                ),
                (
                    "banking",
                    object(vec![("keybox", text("bank.xml")), ("apps", list(&["reserved.app"]))]),
                ),
            ]),
        ),
    ])
}

#[test]
fn updates_only_selected_profile_and_preserves_unknown_fields() {
    let mut config = two_profiles();
    config.put("futureField", Json::Bool(true));
    let effective = update_profile_apps_for(
        &mut config,
        &vec!["new.app".to_string()],
        "default",
        &no_packages(),
    )
    .unwrap();

    assert_eq!(at(&config, &["futureField"]), &Json::Bool(true));
    assert_eq!(
        at(&config, &["profiles", "default", "autoIncludeNewApps"]),
        &Json::Bool(true)
    );
    assert_eq!(at(&config, &["profiles", "default", "apps"]), &list(&["new.app"]));
    assert_eq!(at(&config, &["profiles", "banking", "apps"]), &list(&["reserved.app"]));
    assert_eq!(effective, vec!["new.app"]);
}

#[test]
fn rejects_apps_owned_by_another_profile() {
    let mut config = two_profiles();

    let error = update_profile_apps_for(
        &mut config,
        &vec!["new.app".to_string(), "reserved.app".to_string()],
        "default",
        &no_packages(),
    )
    .unwrap_err();

    assert!(error.message().contains("reserved.app"));
    assert_eq!(at(&config, &["profiles", "default", "apps"]), &list(&["old.app"]));
}

fn config_of(name: &str, profile: Json) -> Json {
    object(vec![("version", number(1)), ("profiles", object(vec![(name, profile)]))])
}

#[test]
fn rejects_malformed_or_profileless_configs() {
    let none = no_packages();
    assert!(validate_teesim_config(
        &object(vec![("version", number(1)), ("profiles", Json::Array(vec![]))]),
        &none
    )
    .is_err());
    assert!(validate_teesim_config(
        &config_of(
            "other",
            object(vec![("keybox", text("keybox.xml")), ("apps", list(&["com.example"]))])
        ),
        &none
    )
    .is_ok());
    assert!(validate_teesim_config(
        &config_of(
            "default",
            object(vec![("keybox", text("../keybox.xml")), ("apps", list(&[]))])
        ),
        &none
    )
    .is_err());
    assert!(validate_teesim_config(
        &config_of(
            "default",
            object(vec![
                ("keybox", text("keybox.xml")),
                ("apps", list(&["com.example"])),
                ("mode", text("invalid")),
            ])
        ),
        &none
    )
    .is_err());
    assert!(validate_teesim_config(
        &config_of(
            "default",
            object(vec![
                ("keybox", text("keybox.xml")),
                ("apps", list(&["com.example"])),
                ("autoIncludeNewApps", text("true")),
            ])
        ),
        &none
    )
    .is_err());
}

#[test]
fn updates_explicit_profile_when_default_is_absent() {
    let mut config = object(vec![
        ("version", number(1)),
        (
            "profiles",
            object(vec![
                (
                    "pixel",
                    object(vec![("keybox", text("pixel.xml")), ("apps", list(&["old.app"]))]),
                ),
                (
                    "banking",
                    object(vec![("keybox", text("bank.xml")), ("apps", list(&["reserved.app"]))]),
                ),
            ]),
        ),
    ]);

    update_profile_apps_for(&mut config, &vec!["new.app".to_string()], "pixel", &no_packages())
        .unwrap();

    assert_eq!(at(&config, &["profiles", "pixel", "apps"]), &list(&["new.app"]));
    assert_eq!(at(&config, &["profiles", "banking", "apps"]), &list(&["reserved.app"]));
}

#[test]
fn reports_single_profile_as_automatic() {
    let status = profile_status_for(
        &config_of(
            "default",
            object(vec![("keybox", text("keybox.xml")), ("apps", list(&["com.example"]))]),
        ),
        "stale",
        &no_packages(),
    )
    .unwrap();

    assert_eq!(status.profiles, vec!["default"]);
    assert_eq!(status.selected.as_deref(), Some("default"));
    assert!(status.automatic);
}

#[test]
fn reports_multi_profile_selection_and_pending_states() {
    let config = object(vec![
        ("version", number(1)),
        (
            "profiles",
            object(vec![
                (
                    "default",
                    object(vec![("keybox", text("keybox.xml")), ("apps", list(&["com.example"]))]),
                ),
                (
                    "banking",
                    object(vec![("keybox", text("bank.xml")), ("apps", list(&["com.bank"]))]),
                ),
            ]),
        ),
    ]);

    let selected = profile_status_for(&config, "banking", &no_packages()).unwrap();
    assert_eq!(selected.selected.as_deref(), Some("banking"));
    assert!(!selected.automatic);

    let pending = profile_status_for(&config, "missing", &no_packages()).unwrap();
    assert_eq!(pending.selected, None);
}

fn chosen(name: &str) -> Result<String, String> {
    Ok(name.to_string())
}

fn no_settings() -> Result<String, String> {
    Err("no settings".to_string())
}

#[test]
fn unknown_profiles_are_not_updated() {
    let mut config = two_profiles();
    let error =
        update_profile_apps_for(&mut config, &vec!["x".to_string()], "other", &no_packages())
            .unwrap_err();
    assert_eq!(error, Refusal::SelectedMissing);
    assert_eq!(error.message(), "selected TEESimulator profile does not exist");
    assert_eq!(config, two_profiles());
    assert_eq!(
        update_profile_apps(&mut config, &vec!["x".to_string()], &chosen("other"), &no_packages()),
        Err(Refusal::ConfiguredProfileMissing { name: "other".to_string() })
    );
    let taken = update_profile_apps(
        &mut config,
        &vec!["new.app".to_string()],
        &chosen("banking"),
        &no_packages(),
    );
    assert_eq!(taken, Ok(vec!["new.app".to_string()]));
    assert_eq!(at(&config, &["profiles", "banking", "apps"]), &list(&["new.app"]));
}

#[test]
fn a_null_profile_becomes_an_object() {
    let mut config = config_of("p", Json::Null);
    let entries = vec!["x".to_string()];
    update_profile_apps(&mut config, &entries, &no_settings(), &no_packages()).unwrap();
    assert_eq!(config, config_of("p", object(vec![("apps", list(&["x"]))])));
}

#[test]
fn apps_of_one_uid_go_to_one_profile() {
    let mut packages = no_packages();
    packages.insert("reserved.app".to_string(), 10001);
    packages.insert("twin.app".to_string(), 10001);
    let mut config = two_profiles();
    let error = update_profile_apps_for(
        &mut config,
        &vec!["uid:10001".to_string(), "new.app".to_string(), "twin.app".to_string()],
        "default",
        &packages,
    )
    .unwrap_err();
    assert_eq!(error, Refusal::AppsAssigned { apps: "uid:10001, twin.app".to_string() });
    assert_eq!(config, two_profiles());
}

#[test]
fn profiles_of_another_form_are_refused() {
    let number_profile = config_of("p", number(1));
    assert_eq!(selected_profile(&number_profile, &no_settings()), Err(Refusal::SelectedNotObject));
    let mut config = config_of("p", number(1));
    let error =
        update_patch_levels(&mut config, &no_settings(), "no".into(), "no".into(), "no".into())
            .unwrap_err();
    assert_eq!(error, Refusal::ChangedNotObject);
    assert_eq!(error.message(), "TEESimulator profile must be an object");
    assert_eq!(config, number_profile);

    let mut config = config_of("p", object(vec![("patchLevel", number(1))]));
    let error =
        update_patch_levels(&mut config, &no_settings(), "no".into(), "no".into(), "no".into())
            .unwrap_err();
    assert_eq!(error, Refusal::SelectedPatchNotObject);
    assert_eq!(error.message(), "TEESimulator profile patchLevel must be an object");

    let error = profile_keybox_path(&config, &no_settings()).unwrap_err();
    assert_eq!(error, Refusal::SelectedNoKeybox);
    assert_eq!(error.message(), "TEESimulator selected profile has no keybox");
    assert_eq!(
        Refusal::<String>::SelectedNotObject.message(),
        "selected TEESimulator profile must be an object"
    );
}

#[test]
fn patch_levels_change_and_nothing_else() {
    let mut config = two_profiles();
    update_patch_levels(
        &mut config,
        &chosen("banking"),
        "2025-01".into(),
        "no".into(),
        "today".into(),
    )
    .unwrap();
    assert_eq!(
        at(&config, &["profiles", "banking", "patchLevel"]),
        &object(vec![
            ("system", text("2025-01")),
            ("boot", text("no")),
            ("vendor", text("today")),
        ])
    );
    let before = two_profiles();
    assert_eq!(at(&config, &["version"]), at(&before, &["version"]));
    assert_eq!(at(&config, &["profiles", "default"]), at(&before, &["profiles", "default"]));
    for field in ["keybox", "apps"] {
        assert_eq!(
            at(&config, &["profiles", "banking", field]),
            at(&before, &["profiles", "banking", field])
        );
    }
}

#[test]
fn only_texts_count_as_apps() {
    let profile = object(vec![(
        "apps",
        Json::Array(vec![text("a"), number(1), Json::Null, text("b")]),
    )]);
    assert_eq!(profile_apps(&profile), vec!["a", "b"]);
    assert_eq!(profile_apps(&Json::Null), Vec::<String>::new());
}
