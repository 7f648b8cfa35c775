//! Laws of the TEESimulator config: which names, entries and configs are accepted.
use crate::config::{
    app_fault, app_owner, app_uids, apps_fault, apps_of, are_valid_profiles, config_fault,
    form_fault, has_app, is_file_char, is_keybox_name, is_name_char, is_profile_name,
    is_valid_config, is_valid_profile, law_accepted_configs_are_the_valid_ones, lists,
    ownership_fault, profile_fault, profiles_fault, profiles_of, share_an_app, share_fault,
    takes_new_apps, uid_owner, uids_fault,
};
use crate::error::Refusal;
use crate::json::{JsonNumber, JsonView};
use crate::laws::text::{is_row_of_digits, law_prefix, law_signed, law_unsigned, law_unsigned_only};
use crate::packages::{is_app_entry, is_package_char, is_package_name, uid_of_entry};
use crate::patch::is_patch_value;
use crate::text::{digits_value, stripped_prefix, unsigned_value};
use vstd::prelude::*;

verus! {

/// A profile name is accepted if and only if it has 1 to 32 characters, each of them an
/// ASCII letter, a digit, a dash or an underscore.
pub proof fn law_profile_names(name: Seq<char>)
    ensures
        is_profile_name(name) <==> (1 <= name.len() <= 32 && forall|i: int|
            0 <= i < name.len() ==> (('a' <= #[trigger] name[i] && name[i] <= 'z') || ('A'
                <= name[i] && name[i] <= 'Z') || ('0' <= name[i] && name[i] <= '9') || name[i]
                == '-' || name[i] == '_')),
{
    if is_profile_name(name) {
        assert forall|i: int| 0 <= i < name.len() implies (('a' <= #[trigger] name[i] && name[i]
            <= 'z') || ('A' <= name[i] && name[i] <= 'Z') || ('0' <= name[i] && name[i] <= '9')
            || name[i] == '-' || name[i] == '_') by {
            assert(is_name_char(name[i]));
        }
    }
}

/// A keybox name is accepted if and only if it ends with `.xml`, has a character before
/// that, and is made of ASCII letters, digits, dots, dashes and underscores.
pub proof fn law_keybox_names(name: Seq<char>)
    ensures
        is_keybox_name(name) <==> {
            let n = name.len() as int;
            &&& n >= 5
            &&& name[n - 4] == '.' && name[n - 3] == 'x' && name[n - 2] == 'm' && name[n - 1] == 'l'
            &&& forall|i: int|
                0 <= i < n ==> (('a' <= #[trigger] name[i] && name[i] <= 'z') || ('A' <= name[i]
                    && name[i] <= 'Z') || ('0' <= name[i] && name[i] <= '9') || name[i] == '.'
                    || name[i] == '-' || name[i] == '_')
        },
{
    reveal_strlit(".xml");
    let n = name.len() as int;
    if n >= 4 {
        let tail = name.skip(n - 4);
        assert(tail[0] == name[n - 4] && tail[1] == name[n - 3] && tail[2] == name[n - 2] && tail[3]
            == name[n - 1]);
        if name[n - 4] == '.' && name[n - 3] == 'x' && name[n - 2] == 'm' && name[n - 1] == 'l' {
            assert(tail == ".xml"@);
            assert(name.subrange(n - 4, n) == tail);
            assert(".xml"@.is_suffix_of(name));
        }
        if ".xml"@.is_suffix_of(name) {
            assert(name.subrange(n - 4, n) == tail);
            assert(tail == ".xml"@);
        }
    }
    if is_keybox_name(name) {
        assert forall|i: int| 0 <= i < n implies (('a' <= #[trigger] name[i] && name[i] <= 'z') || (
        'A' <= name[i] && name[i] <= 'Z') || ('0' <= name[i] && name[i] <= '9') || name[i] == '.'
            || name[i] == '-' || name[i] == '_') by {
            assert(is_file_char(name[i]));
        }
    }
}

/// A package name is accepted as an app entry: ASCII letters, digits, dots and
/// underscores, and at least one of them.
pub proof fn law_package_entries(entry: Seq<char>)
    requires
        entry.len() > 0,
        forall|i: int|
            0 <= i < entry.len() ==> (('a' <= #[trigger] entry[i] && entry[i] <= 'z') || ('A'
                <= entry[i] && entry[i] <= 'Z') || ('0' <= entry[i] && entry[i] <= '9')
                || entry[i] == '.' || entry[i] == '_'),
    ensures
        is_app_entry(entry),
{
    assert forall|i: int| 0 <= i < entry.len() implies is_package_char(#[trigger] entry[i]) by {}
}

/// A `uid:` entry is accepted where its number is one from zero to the largest `i32`, also
/// with a plus sign, and zero with a minus sign.
pub proof fn law_uid_entries(digits: Seq<char>)
    requires
        is_row_of_digits(digits),
    ensures
        is_app_entry("uid:"@ + digits) <==> digits_value(digits) <= 2147483647,
        is_app_entry("uid:"@ + seq!['+'] + digits) <==> digits_value(digits) <= 2147483647,
        is_app_entry("uid:"@ + seq!['-'] + digits) <==> digits_value(digits) == 0,
{
    reveal_strlit("uid:");
    law_signed(digits, digits);
    law_prefix("uid:"@, digits, digits);
    law_prefix("uid:"@, seq!['+'] + digits, digits);
    law_prefix("uid:"@, seq!['-'] + digits, digits);
    assert("uid:"@ + seq!['+'] + digits == "uid:"@ + (seq!['+'] + digits));
    assert("uid:"@ + seq!['-'] + digits == "uid:"@ + (seq!['-'] + digits));
    let a = "uid:"@ + digits;
    let b = "uid:"@ + (seq!['+'] + digits);
    let c = "uid:"@ + (seq!['-'] + digits);
    assert(a[3] == ':' && b[3] == ':' && c[3] == ':');
    assert(!is_package_char(a[3]) && !is_package_char(b[3]) && !is_package_char(c[3]));
}

/// An entry that is accepted is a package name or a `uid:` entry.
pub proof fn law_entries_of_no_other_form(entry: Seq<char>)
    requires
        is_app_entry(entry),
    ensures
        entry.len() > 0,
        (forall|i: int|
            0 <= i < entry.len() ==> (('a' <= #[trigger] entry[i] && entry[i] <= 'z') || ('A'
                <= entry[i] && entry[i] <= 'Z') || ('0' <= entry[i] && entry[i] <= '9')
                || entry[i] == '.' || entry[i] == '_')) || (entry.len() > 4 && entry[0] == 'u'
            && entry[1] == 'i' && entry[2] == 'd' && entry[3] == ':' && (is_row_of_digits(
            entry.skip(4),
        ) || ((entry[4] == '+' || entry[4] == '-') && is_row_of_digits(entry.skip(5))))),
{
    reveal_strlit("uid:");
    if is_package_name(entry) {
        assert forall|i: int| 0 <= i < entry.len() implies (('a' <= #[trigger] entry[i] && entry[i]
            <= 'z') || ('A' <= entry[i] && entry[i] <= 'Z') || ('0' <= entry[i] && entry[i] <= '9')
            || entry[i] == '.' || entry[i] == '_') by {
            assert(is_package_char(entry[i]));
        }
    } else {
        let number = stripped_prefix(entry, "uid:"@)->0;
        law_prefix("uid:"@, number, entry);
        let one = seq!['1'];
        assert(one[0] == '1');
        law_signed(one, number);
        assert(entry.skip(4) == number);
        assert(entry.skip(5) == number.skip(1));
    }
}

/// A `uid:` entry stands for the UID that it names, up to the largest `u32`, whatever is
/// installed; an entry that names no number stands for the UID of the package of its name,
/// where there is one.
pub proof fn law_entry_uids(digits: Seq<char>, entry: Seq<char>, packages: Map<Seq<char>, u32>)
    requires
        is_row_of_digits(digits),
    ensures
        digits_value(digits) <= 4294967295 ==> uid_of_entry("uid:"@ + digits, packages) == Some(
            digits_value(digits) as u32,
        ) && uid_of_entry("uid:"@ + seq!['+'] + digits, packages) == Some(
            digits_value(digits) as u32,
        ),
        digits_value(digits) > 4294967295 && !packages.contains_key("uid:"@ + digits)
            ==> uid_of_entry("uid:"@ + digits, packages) is None,
        !"uid:"@.is_prefix_of(entry) ==> uid_of_entry(entry, packages) == if packages.contains_key(
            entry,
        ) {
            Some(packages[entry])
        } else {
            None
        },
        uid_of_entry(entry, packages) is Some && !packages.contains_key(entry) ==> "uid:"@
            .is_prefix_of(entry),
{
    law_unsigned(digits, 4294967295);
    law_prefix("uid:"@, digits, entry);
    law_prefix("uid:"@, seq!['+'] + digits, entry);
    assert("uid:"@ + seq!['+'] + digits == "uid:"@ + (seq!['+'] + digits));
}

/// An entry that begins as a `uid:` entry does, but names no number up to the largest
/// `u32`, stands for the package of its name too.
pub proof fn law_entries_without_a_number(rest: Seq<char>, packages: Map<Seq<char>, u32>)
    requires
        !(is_row_of_digits(rest) && digits_value(rest) <= 4294967295),
        !(rest.len() > 0 && rest[0] == '+' && is_row_of_digits(rest.skip(1)) && digits_value(
            rest.skip(1),
        ) <= 4294967295),
    ensures
        uid_of_entry("uid:"@ + rest, packages) == if packages.contains_key("uid:"@ + rest) {
            Some(packages["uid:"@ + rest])
        } else {
            None
        },
{
    law_prefix("uid:"@, rest, rest);
    if unsigned_value(rest, 4294967295) is Some {
        law_unsigned_only(rest, 4294967295);
        if is_row_of_digits(rest) {
            law_unsigned(rest, 4294967295);
        } else {
            law_unsigned(rest.skip(1), 4294967295);
            assert(seq!['+'] + rest.skip(1) == rest);
        }
    }
}

/// The config of one profile and nothing else.
pub open spec fn alone(name: Seq<char>, profile: JsonView) -> JsonView {
    JsonView::Object(
        seq![
            ("profiles"@, JsonView::Object(seq![(name, profile)])),
            ("version"@, JsonView::Number(JsonNumber::Unsigned(1))),
        ],
    )
}

proof fn lemma_alone(name: Seq<char>, profile: JsonView)
    ensures
        alone(name, profile).field("profiles"@) == Some(
            JsonView::Object(seq![(name, profile)]),
        ),
        alone(name, profile).field("version"@) == Some(
            JsonView::Number(JsonNumber::Unsigned(1)),
        ),
        profiles_of(alone(name, profile)) == Some(seq![(name, profile)]),
{
    reveal_strlit("profiles");
    reveal_strlit("version");
    let entries = alone(name, profile)->Object_0;
    assert("profiles"@.len() != "version"@.len());
    assert(entries[0].0 == "profiles"@);
    assert(entries.drop_first()[0].0 == "version"@);
    reveal_with_fuel(crate::json::lookup, 3);
}

/// Of a config only the version and the profiles matter.
pub proof fn law_other_fields_do_not_matter(
    a: JsonView,
    b: JsonView,
    packages: Map<Seq<char>, u32>,
)
    requires
        a is Object,
        b is Object,
        a.field("version"@) == b.field("version"@),
        a.field("profiles"@) == b.field("profiles"@),
    ensures
        config_fault(a, packages) == config_fault(b, packages),
{
}

/// A config is an object of the version 1 with an object of profiles in it that is not
/// empty; what is not is refused, and told apart in this order.
pub proof fn law_roots(config: JsonView, packages: Map<Seq<char>, u32>)
    ensures
        config !is Object ==> config_fault(config, packages) == Some(
            Refusal::<Seq<char>>::RootNotObject,
        ),
        config is Object && config.field("version"@) != Some(
            JsonView::Number(JsonNumber::Unsigned(1)),
        ) ==> config_fault(config, packages) == Some(
            Refusal::<Seq<char>>::UnsupportedVersion,
        ),
        config is Object && config.field("version"@) == Some(
            JsonView::Number(JsonNumber::Unsigned(1)),
        ) ==> match config.field("profiles"@) {
            Some(JsonView::Object(profiles)) => {
                &&& profiles.len() == 0 ==> config_fault(config, packages) == Some(
                    Refusal::<Seq<char>>::ProfilesEmpty,
                )
                &&& config_fault(config, packages) != Some(Refusal::<Seq<char>>::ProfilesNotObject)
            },
            _ => config_fault(config, packages) == Some(Refusal::<Seq<char>>::ProfilesNotObject),
        },
{
    if config is Object && profiles_of(config) is Some && config.field("version"@) == Some(
        JsonView::Number(JsonNumber::Unsigned(1)),
    ) && profiles_of(config)->0.len() > 0 {
        lemma_fault_is_there(profiles_of(config)->0, packages, 0);
        lemma_uid_fault_is_there(profiles_of(config)->0, packages, 0);
    }
}

/// A level that a profile may hold under one of the three names: none, an empty one, or an
/// allowed one.
pub open spec fn is_fit_level(patch: JsonView, key: Seq<char>) -> bool {
    match patch.field(key) {
        None => true,
        Some(JsonView::Text(level)) => level.len() == 0 || is_patch_value(level),
        _ => false,
    }
}

/// What is wrong with a level.
pub open spec fn level_defect(name: Seq<char>, patch: JsonView, key: Seq<char>) -> Refusal<
    Seq<char>,
> {
    match patch.field(key) {
        Some(JsonView::Text(level)) => Refusal::InvalidPatchField {
            name,
            field: key,
            value: level,
        },
        _ => Refusal::PatchFieldNotText { name, field: key },
    }
}

/// The first defect of a profile that stands alone is the one that is told: of the name,
/// of the form, of the keybox, of the app list, of the switch for new apps, of the mode,
/// of the patch levels, and of a list without apps, in this order.
pub proof fn law_first_defect_of_a_profile(
    name: Seq<char>,
    profile: JsonView,
    packages: Map<Seq<char>, u32>,
)
    ensures
        ({
            let fault = config_fault(alone(name, profile), packages);
            let keybox = profile.field("keybox"@);
            let apps = profile.field("apps"@);
            let switch = profile.field("autoIncludeNewApps"@);
            let mode = profile.field("mode"@);
            let patch = profile.field("patchLevel"@);
            if !is_profile_name(name) {
                fault == Some(Refusal::InvalidProfileName { name })
            } else if profile !is Object {
                fault == Some(Refusal::ProfileNotObject { name })
            } else if !(keybox matches Some(JsonView::Text(_))) {
                fault == Some(Refusal::NoKeybox { name })
            } else if !is_keybox_name(keybox->0->Text_0) {
                fault == Some(Refusal::InvalidKeybox { name })
            } else if apps is Some && apps->0 !is Array {
                fault == Some(Refusal::AppsNotArray { name })
            } else if switch is Some && switch->0 !is Bool {
                fault == Some(Refusal::AutoIncludeNotBoolean { name })
            } else if mode is Some && mode->0 != JsonView::Text("patch"@) && mode->0
                != JsonView::Text("generation"@) {
                fault == Some(Refusal::InvalidMode { name })
            } else if patch is Some && patch->0 !is Object {
                fault == Some(Refusal::PatchLevelNotObject { name })
            } else if patch is Some && !is_fit_level(patch->0, "system"@) {
                fault == Some(level_defect(name, patch->0, "system"@))
            } else if patch is Some && !is_fit_level(patch->0, "vendor"@) {
                fault == Some(level_defect(name, patch->0, "vendor"@))
            } else if patch is Some && !is_fit_level(patch->0, "boot"@) {
                fault == Some(level_defect(name, patch->0, "boot"@))
            } else if switch != Some(JsonView::Bool(true)) && (apps is None
                || apps->0->Array_0.len() == 0) {
                fault == Some(Refusal::NoApps { name })
            } else if apps is None {
                fault is None
            } else {
                fault == first_bad_entry(name, apps->0->Array_0)
            }
        }),
{
    lemma_alone(name, profile);
    let profiles = seq![(name, profile)];
    assert(profiles_fault(profiles, 1) is None);
    assert(profiles_fault(profiles, 0) == profile_fault(profiles, 0) || profile_fault(
        profiles,
        0,
    ) is None);
    assert(!crate::config::new_apps_taken(profiles, 0));
    assert(ownership_fault(profiles, 1, packages) is None);
    lemma_no_uid_fault_alone(profiles, 0, packages);
    lemma_bad_entry_alone(profiles, 0);
    assert(profiles[0] == (name, profile));
    assert(apps_of(profile).skip(0) == apps_of(profile));
    assert(config_fault(alone(name, profile), packages) == profile_fault(profiles, 0));
}

/// A profile of an allowed name with an allowed keybox and an allowed app makes a config
/// that is accepted, alone, whatever else it holds that the rules do not speak of.
pub proof fn law_plain_profiles_are_accepted(
    name: Seq<char>,
    profile: JsonView,
    keybox: Seq<char>,
    app: Seq<char>,
    packages: Map<Seq<char>, u32>,
)
    requires
        1 <= name.len() <= 32,
        forall|i: int|
            0 <= i < name.len() ==> (('a' <= #[trigger] name[i] && name[i] <= 'z') || ('A'
                <= name[i] && name[i] <= 'Z') || ('0' <= name[i] && name[i] <= '9') || name[i]
                == '-' || name[i] == '_'),
        profile is Object,
        profile.field("keybox"@) == Some(JsonView::Text(keybox)),
        is_keybox_name(keybox),
        profile.field("apps"@) == Some(JsonView::Array(seq![JsonView::Text(app)])),
        is_app_entry(app),
        profile.field("autoIncludeNewApps"@) is None,
        profile.field("mode"@) is None,
        profile.field("patchLevel"@) is None,
    ensures
        config_fault(alone(name, profile), packages) is None,
{
    law_profile_names(name);
    law_first_defect_of_a_profile(name, profile, packages);
    let items = seq![JsonView::Text(app)];
    assert(items.first() == JsonView::Text(app));
    assert(items.drop_first() == Seq::<JsonView>::empty());
    reveal_with_fuel(first_bad_entry, 2);
}

/// What is wrong with the first entry of a list that is no text, or no allowed one.
pub open spec fn first_bad_entry(name: Seq<char>, items: Seq<JsonView>) -> Option<
    Refusal<Seq<char>>,
>
    decreases items.len(),
{
    if items.len() == 0 {
        None
    } else {
        match items.first() {
            JsonView::Text(app) => if is_app_entry(app) {
                first_bad_entry(name, items.drop_first())
            } else {
                Some(Refusal::InvalidApp { name, app })
            },
            _ => Some(Refusal::AppNotText { name }),
        }
    }
}

proof fn lemma_no_uid_fault_alone(
    profiles: Seq<(Seq<char>, JsonView)>,
    j: int,
    packages: Map<Seq<char>, u32>,
)
    requires
        profiles.len() == 1,
    ensures
        uids_fault(profiles, 0, j, packages) is None,
    decreases app_uids(apps_of(profiles[0].1), packages).len() - j,
{
    let uids = app_uids(apps_of(profiles[0].1), packages);
    if 0 <= j < uids.len() {
        lemma_no_uid_fault_alone(profiles, j + 1, packages);
        assert(uid_owner(profiles, 0, uids[j], packages) is None);
    }
}

proof fn lemma_bad_entry_alone(profiles: Seq<(Seq<char>, JsonView)>, j: int)
    requires
        profiles.len() == 1,
        0 <= j <= apps_of(profiles[0].1).len(),
    ensures
        apps_fault(profiles, 0, j) == first_bad_entry(
            profiles[0].0,
            apps_of(profiles[0].1).skip(j),
        ),
    decreases apps_of(profiles[0].1).len() - j,
{
    let apps = apps_of(profiles[0].1);
    if j < apps.len() {
        lemma_bad_entry_alone(profiles, j + 1);
        assert(apps.skip(j).first() == apps[j]);
        assert(apps.skip(j).drop_first() == apps.skip(j + 1));
        if apps[j].text() is Some {
            assert(app_owner(profiles, 0, apps[j].text()->0) is None);
        }
    }
}

/// The profiles of a config are accepted if and only if each of them is accepted alone, no
/// two of them take new apps, and no two of different names have an app in common: the
/// same entry, or two entries of one UID.
pub proof fn law_profiles_are_judged_alone_and_in_pairs(
    config: JsonView,
    profiles: Seq<(Seq<char>, JsonView)>,
    packages: Map<Seq<char>, u32>,
)
    requires
        config is Object,
        config.field("version"@) == Some(JsonView::Number(JsonNumber::Unsigned(1))),
        config.field("profiles"@) == Some(JsonView::Object(profiles)),
        profiles.len() > 0,
    ensures
        config_fault(config, packages) is None <==> {
            &&& forall|i: int|
                0 <= i < profiles.len() ==> config_fault(
                    alone((#[trigger] profiles[i]).0, profiles[i].1),
                    packages,
                ) is None
            &&& forall|i: int, k: int|
                0 <= k < i < profiles.len() ==> !((#[trigger] profiles[i]).1.field(
                    "autoIncludeNewApps"@,
                ) == Some(JsonView::Bool(true)) && (#[trigger] profiles[k]).1.field(
                    "autoIncludeNewApps"@,
                ) == Some(JsonView::Bool(true)))
            &&& forall|i: int, k: int|
                0 <= i < profiles.len() && 0 <= k < profiles.len() && (#[trigger] profiles[i]).0
                    != (#[trigger] profiles[k]).0 ==> !have_an_app_in_common(
                    profiles[i].1,
                    profiles[k].1,
                    packages,
                )
        },
{
    law_accepted_configs_are_the_valid_ones(config, packages);
    assert(profiles_of(config) == Some(profiles));
    assert forall|i: int| 0 <= i < profiles.len() implies (config_fault(
        alone((#[trigger] profiles[i]).0, profiles[i].1),
        packages,
    ) is None <==> is_valid_profile(profiles[i].0, profiles[i].1)) by {
        lemma_valid_alone(profiles[i].0, profiles[i].1, packages);
    }
    assert forall|i: int, k: int|
        0 <= i < profiles.len() && 0 <= k < profiles.len() implies (have_an_app_in_common(
        (#[trigger] profiles[i]).1,
        (#[trigger] profiles[k]).1,
        packages,
    ) <==> share_an_app(profiles[i].1, profiles[k].1, packages)) by {
        lemma_common_app(profiles[i].1, profiles[k].1, packages);
    }
    if is_valid_config(config, packages) {
        assert forall|i: int| 0 <= i < profiles.len() implies config_fault(
            alone((#[trigger] profiles[i]).0, profiles[i].1),
            packages,
        ) is None by {
            assert(is_valid_profile(profiles[i].0, profiles[i].1));
        }
        assert forall|i: int, k: int| 0 <= k < i < profiles.len() implies !((
        #[trigger] profiles[i]).1.field("autoIncludeNewApps"@) == Some(JsonView::Bool(true)) && (
        #[trigger] profiles[k]).1.field("autoIncludeNewApps"@) == Some(JsonView::Bool(true))) by {
            assert(!(takes_new_apps(profiles[i].1) && takes_new_apps(profiles[k].1)));
        }
        assert forall|i: int, k: int|
            0 <= i < profiles.len() && 0 <= k < profiles.len() && (#[trigger] profiles[i]).0 != (
            #[trigger] profiles[k]).0 implies !have_an_app_in_common(
            profiles[i].1,
            profiles[k].1,
            packages,
        ) by {
            assert(!share_an_app(profiles[i].1, profiles[k].1, packages));
        }
    } else if (forall|i: int|
        0 <= i < profiles.len() ==> config_fault(
            alone((#[trigger] profiles[i]).0, profiles[i].1),
            packages,
        ) is None) && (forall|i: int, k: int|
        0 <= k < i < profiles.len() ==> !((#[trigger] profiles[i]).1.field("autoIncludeNewApps"@)
            == Some(JsonView::Bool(true)) && (#[trigger] profiles[k]).1.field(
            "autoIncludeNewApps"@,
        ) == Some(JsonView::Bool(true)))) && (forall|i: int, k: int|
        0 <= i < profiles.len() && 0 <= k < profiles.len() && (#[trigger] profiles[i]).0 != (
        #[trigger] profiles[k]).0 ==> !have_an_app_in_common(
            profiles[i].1,
            profiles[k].1,
            packages,
        )) {
        assert forall|i: int| 0 <= i < profiles.len() implies is_valid_profile(
            #[trigger] profiles[i].0,
            profiles[i].1,
        ) by {
            assert(config_fault(alone(profiles[i].0, profiles[i].1), packages) is None);
        }
        assert forall|i: int, k: int| 0 <= k < i < profiles.len() implies !(takes_new_apps(
            #[trigger] profiles[i].1,
        ) && takes_new_apps(#[trigger] profiles[k].1)) by {
            let (a, b) = (profiles[i], profiles[k]);
        }
        assert forall|i: int, k: int|
            0 <= i < profiles.len() && 0 <= k < profiles.len() && profiles[i].0
                != profiles[k].0 implies !share_an_app(
            #[trigger] profiles[i].1,
            #[trigger] profiles[k].1,
            packages,
        ) by {
            let (a, b) = (profiles[i], profiles[k]);
        }
        assert(are_valid_profiles(profiles, packages));
    }
}

/// The texts in the app lists of two profiles meet: an entry is in both, or two entries
/// have one UID.
pub open spec fn have_an_app_in_common(
    a: JsonView,
    b: JsonView,
    packages: Map<Seq<char>, u32>,
) -> bool {
    exists|i: int, k: int|
        {
            &&& #[trigger] is_entry(a, i)
            &&& #[trigger] is_entry(b, k)
            &&& {
                ||| entry_at(a, i) == entry_at(b, k)
                ||| uid_of_entry(entry_at(a, i), packages) is Some && uid_of_entry(
                    entry_at(a, i),
                    packages,
                ) == uid_of_entry(entry_at(b, k), packages)
            }
        }
}

/// The app list of a profile has a text at this place.
pub open spec fn is_entry(profile: JsonView, i: int) -> bool {
    match profile.field("apps"@) {
        Some(JsonView::Array(items)) => 0 <= i < items.len() && items[i] is Text,
        _ => false,
    }
}

/// The text at this place of the app list of a profile.
pub open spec fn entry_at(profile: JsonView, i: int) -> Seq<char> {
    profile.field("apps"@)->0->Array_0[i]->Text_0
}

proof fn lemma_common_app(a: JsonView, b: JsonView, packages: Map<Seq<char>, u32>)
    ensures
        have_an_app_in_common(a, b, packages) <==> share_an_app(a, b, packages),
{
    if have_an_app_in_common(a, b, packages) {
        let (i, k) = choose|i: int, k: int|
            {
                &&& #[trigger] is_entry(a, i)
                &&& #[trigger] is_entry(b, k)
                &&& {
                    ||| entry_at(a, i) == entry_at(b, k)
                    ||| uid_of_entry(entry_at(a, i), packages) is Some && uid_of_entry(
                        entry_at(a, i),
                        packages,
                    ) == uid_of_entry(entry_at(b, k), packages)
                }
            };
        assert(apps_of(a)[i] == JsonView::Text(entry_at(a, i)));
        assert(apps_of(b)[k] == JsonView::Text(entry_at(b, k)));
        assert(has_app(a, entry_at(a, i)) && has_app(b, entry_at(b, k)));
        assert(crate::config::is_same_app(entry_at(a, i), entry_at(b, k), packages));
    }
    if share_an_app(a, b, packages) {
        let (app, other) = choose|app: Seq<char>, other: Seq<char>|
            #[trigger] has_app(a, app) && #[trigger] has_app(b, other)
                && crate::config::is_same_app(app, other, packages);
        let i = choose|i: int| 0 <= i < apps_of(a).len() && apps_of(a)[i] == JsonView::Text(app);
        let k = choose|k: int| 0 <= k < apps_of(b).len() && apps_of(b)[k] == JsonView::Text(other);
        assert(is_entry(a, i) && is_entry(b, k));
        assert(entry_at(a, i) == app && entry_at(b, k) == other);
    }
}

proof fn lemma_valid_alone(name: Seq<char>, profile: JsonView, packages: Map<Seq<char>, u32>)
    ensures
        config_fault(alone(name, profile), packages) is None <==> is_valid_profile(name, profile),
{
    lemma_alone(name, profile);
    law_accepted_configs_are_the_valid_ones(alone(name, profile), packages);
    let profiles = seq![(name, profile)];
    if is_valid_profile(name, profile) {
        assert(are_valid_profiles(profiles, packages));
    }
    if are_valid_profiles(profiles, packages) {
        assert(is_valid_profile(profiles[0].0, profiles[0].1));
    }
}

proof fn lemma_fault_is_there(
    profiles: Seq<(Seq<char>, JsonView)>,
    packages: Map<Seq<char>, u32>,
    i: int,
)
    requires
        0 <= i,
    ensures
        profiles_fault(profiles, i) is Some ==> exists|k: int|
            i <= k < profiles.len() && #[trigger] profile_fault(profiles, k) == profiles_fault(
                profiles,
                i,
            ),
        profiles_fault(profiles, i) != Some(Refusal::<Seq<char>>::ProfilesNotObject),
        !(profiles_fault(profiles, i) matches Some(Refusal::UidClaimed { .. })),
    decreases profiles.len() - i,
{
    if i < profiles.len() {
        lemma_fault_is_there(profiles, packages, i + 1);
        lemma_entry_fault_is_there(profiles, i, 0);
    }
}

proof fn lemma_entry_fault_is_there(profiles: Seq<(Seq<char>, JsonView)>, i: int, j: int)
    requires
        0 <= i < profiles.len(),
        0 <= j,
    ensures
        apps_fault(profiles, i, j) is Some ==> exists|k: int|
            j <= k < apps_of(profiles[i].1).len() && #[trigger] app_fault(
                profiles,
                i,
                apps_of(profiles[i].1)[k],
            ) == apps_fault(profiles, i, j),
        match apps_fault(profiles, i, j) {
            None => true,
            Some(Refusal::AppNotText { .. }) => true,
            Some(Refusal::InvalidApp { .. }) => true,
            Some(Refusal::AppClaimed { .. }) => true,
            Some(_) => false,
        },
    decreases apps_of(profiles[i].1).len() - j,
{
    if j < apps_of(profiles[i].1).len() {
        lemma_entry_fault_is_there(profiles, i, j + 1);
    }
}

proof fn lemma_uid_fault_is_there(
    profiles: Seq<(Seq<char>, JsonView)>,
    packages: Map<Seq<char>, u32>,
    i: int,
)
    requires
        0 <= i,
    ensures
        match ownership_fault(profiles, i, packages) {
            None => true,
            Some(Refusal::UidClaimed { .. }) => true,
            Some(_) => false,
        },
        ownership_fault(profiles, i, packages) is Some ==> exists|k: int|
            i <= k < profiles.len() && #[trigger] uids_fault(profiles, k, 0, packages)
                == ownership_fault(profiles, i, packages),
    decreases profiles.len() - i,
{
    if i < profiles.len() {
        lemma_uid_fault_is_there(profiles, packages, i + 1);
        lemma_uid_fault_at(profiles, packages, i, 0);
    }
}

proof fn lemma_uid_fault_at(
    profiles: Seq<(Seq<char>, JsonView)>,
    packages: Map<Seq<char>, u32>,
    i: int,
    j: int,
)
    requires
        0 <= i < profiles.len(),
        0 <= j,
    ensures
        match uids_fault(profiles, i, j, packages) {
            None => true,
            Some(Refusal::UidClaimed { uid, owner, name }) => {
                &&& name == profiles[i].0
                &&& owner != name
                &&& uid_owner(profiles, i, uid, packages) == Some(owner)
                &&& app_uids(apps_of(profiles[i].1), packages).contains(uid)
            },
            Some(_) => false,
        },
    decreases app_uids(apps_of(profiles[i].1), packages).len() - j,
{
    if j < app_uids(apps_of(profiles[i].1), packages).len() {
        lemma_uid_fault_at(profiles, packages, i, j + 1);
    }
}

/// A refusal that tells of an app in two profiles tells the truth: both have it, under
/// different names.
pub proof fn law_claims_are_there(
    config: JsonView,
    profiles: Seq<(Seq<char>, JsonView)>,
    packages: Map<Seq<char>, u32>,
)
    requires
        config.field("profiles"@) == Some(JsonView::Object(profiles)),
    ensures
        config_fault(config, packages) matches Some(Refusal::AppClaimed { owner, name, app }) ==> {
            &&& owner != name
            &&& exists|i: int, k: int|
                is_claim(profiles, i, k, owner, name) && #[trigger] lists_entry(
                    profiles[i].1,
                    app,
                ) && #[trigger] lists_entry(profiles[k].1, app)
        },
        config_fault(config, packages) matches Some(Refusal::UidClaimed { uid, owner, name }) ==> {
            &&& owner != name
            &&& exists|i: int, k: int|
                is_claim(profiles, i, k, owner, name) && #[trigger] lists_uid_of(
                    profiles[i].1,
                    uid,
                    packages,
                ) && #[trigger] lists_uid_of(profiles[k].1, uid, packages)
        },
{
    assert(profiles_of(config) == Some(profiles));
    lemma_fault_is_there(profiles, packages, 0);
    lemma_uid_fault_is_there(profiles, packages, 0);
    match config_fault(config, packages) {
        Some(Refusal::AppClaimed { owner, name, app }) => {
            let i = choose|k: int|
                0 <= k < profiles.len() && #[trigger] profile_fault(profiles, k) == profiles_fault(
                    profiles,
                    0,
                );
            lemma_entry_fault_is_there(profiles, i, 0);
            let j = choose|k: int|
                0 <= k < apps_of(profiles[i].1).len() && #[trigger] app_fault(
                    profiles,
                    i,
                    apps_of(profiles[i].1)[k],
                ) == apps_fault(profiles, i, 0);
            assert(apps_of(profiles[i].1)[j] == JsonView::Text(app));
            crate::config::lemma_app_owner_at(profiles, i, app);
            let k = choose|k: int|
                0 <= k < i && #[trigger] profiles[k].0 == app_owner(profiles, i, app)->0
                    && has_app(profiles[k].1, app);
            lemma_lists_entry(profiles[i].1, app);
            lemma_lists_entry(profiles[k].1, app);
            assert(is_claim(profiles, k, i, owner, name));
        },
        Some(Refusal::UidClaimed { uid, owner, name }) => {
            let i = choose|k: int|
                0 <= k < profiles.len() && #[trigger] uids_fault(profiles, k, 0, packages)
                    == ownership_fault(profiles, 0, packages);
            lemma_uid_fault_at(profiles, packages, i, 0);
            crate::config::lemma_uid_owner_at(profiles, i, uid, packages);
            let k = choose|k: int|
                0 <= k < i && #[trigger] profiles[k].0 == uid_owner(profiles, i, uid, packages)->0
                    && app_uids(apps_of(profiles[k].1), packages).contains(uid);
            lemma_lists_uid(profiles[i].1, uid, packages);
            lemma_lists_uid(profiles[k].1, uid, packages);
            assert(is_claim(profiles, k, i, owner, name));
        },
        _ => {},
    }
}

/// The places of two profiles of these names.
pub open spec fn is_claim(
    profiles: Seq<(Seq<char>, JsonView)>,
    i: int,
    k: int,
    owner: Seq<char>,
    name: Seq<char>,
) -> bool {
    0 <= i < profiles.len() && 0 <= k < profiles.len() && profiles[i].0 == owner && profiles[k].0
        == name
}

/// The app list of a profile has this text.
pub open spec fn lists_entry(profile: JsonView, app: Seq<char>) -> bool {
    exists|i: int| #[trigger] is_entry(profile, i) && entry_at(profile, i) == app
}

/// The app list of a profile has an entry of this UID.
pub open spec fn lists_uid_of(profile: JsonView, uid: u32, packages: Map<Seq<char>, u32>) -> bool {
    exists|i: int| #[trigger]
        is_entry(profile, i) && uid_of_entry(entry_at(profile, i), packages) == Some(uid)
}

/// A list holds a text if and only if it is at some place of it.
pub proof fn lemma_lists_entry(profile: JsonView, app: Seq<char>)
    ensures
        lists_entry(profile, app) <==> apps_of(profile).contains(JsonView::Text(app)),
{
    let apps = apps_of(profile);
    if apps.contains(JsonView::Text(app)) {
        let i = choose|i: int| 0 <= i < apps.len() && apps[i] == JsonView::Text(app);
        assert(is_entry(profile, i) && entry_at(profile, i) == app);
    }
    if lists_entry(profile, app) {
        let i = choose|i: int| #[trigger] is_entry(profile, i) && entry_at(profile, i) == app;
        assert(apps[i] == JsonView::Text(app));
    }
}

/// A list holds a UID if and only if an entry at some place of it has it.
pub proof fn lemma_lists_uid(profile: JsonView, uid: u32, packages: Map<Seq<char>, u32>)
    ensures
        lists_uid_of(profile, uid, packages) <==> app_uids(apps_of(profile), packages).contains(
            uid,
        ),
{
    let apps = apps_of(profile);
    crate::config::lemma_app_uids(apps, uid, packages);
    if lists_uid_of(profile, uid, packages) {
        let i = choose|i: int| #[trigger]
            is_entry(profile, i) && uid_of_entry(entry_at(profile, i), packages) == Some(uid);
        assert(apps[i] == JsonView::Text(entry_at(profile, i)));
        assert(lists(apps, entry_at(profile, i)));
    }
    if app_uids(apps, packages).contains(uid) {
        let app = choose|app: Seq<char>|
            #[trigger] lists(apps, app) && uid_of_entry(app, packages) == Some(uid);
        let i = choose|i: int| 0 <= i < apps.len() && apps[i] == JsonView::Text(app);
        assert(is_entry(profile, i) && entry_at(profile, i) == app);
    }
}

proof fn lemma_owner_in_front(
    a: Seq<(Seq<char>, JsonView)>,
    b: Seq<(Seq<char>, JsonView)>,
    n: int,
    app: Seq<char>,
)
    requires
        n <= a.len(),
    ensures
        app_owner(a + b, n, app) == app_owner(a, n, app),
    decreases n,
{
    if n > 0 {
        lemma_owner_in_front(a, b, n - 1, app);
        assert((a + b)[n - 1] == a[n - 1]);
    }
}

proof fn lemma_apps_in_front(
    a: Seq<(Seq<char>, JsonView)>,
    b: Seq<(Seq<char>, JsonView)>,
    i: int,
    j: int,
)
    requires
        0 <= i < a.len(),
    ensures
        apps_fault(a + b, i, j) == apps_fault(a, i, j),
    decreases apps_of(a[i].1).len() - j,
{
    assert((a + b)[i] == a[i]);
    let apps = apps_of(a[i].1);
    if 0 <= j < apps.len() {
        lemma_apps_in_front(a, b, i, j + 1);
        if apps[j].text() is Some {
            lemma_owner_in_front(a, b, i, apps[j].text()->0);
        }
    }
}

proof fn lemma_in_front(a: Seq<(Seq<char>, JsonView)>, b: Seq<(Seq<char>, JsonView)>, i: int)
    requires
        0 <= i <= a.len(),
    ensures
        profiles_fault(a, i) is Some ==> profiles_fault(a + b, i) == profiles_fault(a, i),
    decreases a.len() - i,
{
    if i < a.len() {
        lemma_in_front(a, b, i + 1);
        lemma_apps_in_front(a, b, i, 0);
        let all = a + b;
        assert(all[i] == a[i]);
        if crate::config::new_apps_taken(a, i) {
            let k = choose|k: int| 0 <= k < i && takes_new_apps(#[trigger] a[k].1);
            assert(takes_new_apps(all[k].1));
        }
        if crate::config::new_apps_taken(all, i) {
            let k = choose|k: int| 0 <= k < i && takes_new_apps(#[trigger] all[k].1);
            assert(takes_new_apps(a[k].1));
        }
        assert(share_fault(all, i) == share_fault(a, i));
        assert(profile_fault(all, i) == profile_fault(a, i));
    }
}

/// The first profile with a defect is the one that is told of: profiles behind it do not
/// change the refusal.
pub proof fn law_first_faulty_profile_is_told(
    short: JsonView,
    long: JsonView,
    profiles: Seq<(Seq<char>, JsonView)>,
    behind: Seq<(Seq<char>, JsonView)>,
    packages: Map<Seq<char>, u32>,
)
    requires
        short is Object,
        long is Object,
        short.field("version"@) == long.field("version"@),
        short.field("profiles"@) == Some(JsonView::Object(profiles)),
        long.field("profiles"@) == Some(JsonView::Object(profiles + behind)),
        profiles.len() > 0,
        config_fault(short, packages) is Some,
        !(config_fault(short, packages) matches Some(Refusal::UidClaimed { .. })),
    ensures
        config_fault(long, packages) == config_fault(short, packages),
{
    assert(profiles_of(short) == Some(profiles));
    assert(profiles_of(long) == Some(profiles + behind));
    lemma_in_front(profiles, behind, 0);
    lemma_uid_fault_is_there(profiles, packages, 0);
}

proof fn lemma_uid_owner_in_front(
    a: Seq<(Seq<char>, JsonView)>,
    b: Seq<(Seq<char>, JsonView)>,
    n: int,
    uid: u32,
    packages: Map<Seq<char>, u32>,
)
    requires
        n <= a.len(),
    ensures
        uid_owner(a + b, n, uid, packages) == uid_owner(a, n, uid, packages),
    decreases n,
{
    if n > 0 {
        lemma_uid_owner_in_front(a, b, n - 1, uid, packages);
        assert((a + b)[n - 1] == a[n - 1]);
    }
}

proof fn lemma_uids_in_front(
    a: Seq<(Seq<char>, JsonView)>,
    b: Seq<(Seq<char>, JsonView)>,
    i: int,
    j: int,
    packages: Map<Seq<char>, u32>,
)
    requires
        0 <= i < a.len(),
    ensures
        uids_fault(a + b, i, j, packages) == uids_fault(a, i, j, packages),
    decreases app_uids(apps_of(a[i].1), packages).len() - j,
{
    assert((a + b)[i] == a[i]);
    let uids = app_uids(apps_of(a[i].1), packages);
    if 0 <= j < uids.len() {
        lemma_uids_in_front(a, b, i, j + 1, packages);
        lemma_uid_owner_in_front(a, b, i, uids[j], packages);
    }
}

proof fn lemma_ownership_in_front(
    a: Seq<(Seq<char>, JsonView)>,
    b: Seq<(Seq<char>, JsonView)>,
    i: int,
    packages: Map<Seq<char>, u32>,
)
    requires
        0 <= i <= a.len(),
    ensures
        ownership_fault(a, i, packages) is Some ==> ownership_fault(a + b, i, packages)
            == ownership_fault(a, i, packages),
    decreases a.len() - i,
{
    if i < a.len() {
        lemma_ownership_in_front(a, b, i + 1, packages);
        lemma_uids_in_front(a, b, i, 0, packages);
    }
}

/// UIDs are looked at once every profile is in order by itself and among the others. The
/// first UID that two profiles claim is the one that is told of: profiles behind them do
/// not change the refusal.
pub proof fn law_first_claimed_uid_is_told(
    short: JsonView,
    long: JsonView,
    profiles: Seq<(Seq<char>, JsonView)>,
    behind: Seq<(Seq<char>, JsonView)>,
    packages: Map<Seq<char>, u32>,
)
    requires
        short is Object,
        long is Object,
        short.field("version"@) == long.field("version"@),
        short.field("profiles"@) == Some(JsonView::Object(profiles)),
        long.field("profiles"@) == Some(JsonView::Object(profiles + behind)),
        config_fault(short, packages) matches Some(Refusal::UidClaimed { .. }),
    ensures
        config_fault(long, packages) is Some,
        config_fault(long, packages) matches Some(Refusal::UidClaimed { .. }) ==> config_fault(
            long,
            packages,
        ) == config_fault(short, packages),
        config_fault(long, Map::<Seq<char>, u32>::empty()) is None ==> config_fault(long, packages)
            == config_fault(short, packages),
{
    let all = profiles + behind;
    assert(profiles_of(short) == Some(profiles));
    assert(profiles_of(long) == Some(all));
    lemma_fault_is_there(profiles, packages, 0);
    lemma_fault_is_there(all, packages, 0);
    lemma_ownership_in_front(profiles, behind, 0, packages);
}

/// `after` is the profile `before` with more entries behind its apps, and nothing else is
/// changed in it.
pub open spec fn has_more_apps(
    before: JsonView,
    after: JsonView,
    items: Seq<JsonView>,
    more: Seq<JsonView>,
) -> bool {
    &&& before is Object
    &&& after is Object
    &&& before.field("apps"@) == Some(JsonView::Array(items))
    &&& after.field("apps"@) == Some(JsonView::Array(items + more))
    &&& forall|key: Seq<char>| key != "apps"@ ==> #[trigger] after.field(key) == before.field(key)
}

proof fn lemma_more_apps(
    profiles: Seq<(Seq<char>, JsonView)>,
    name: Seq<char>,
    before: JsonView,
    after: JsonView,
    items: Seq<JsonView>,
    more: Seq<JsonView>,
    j: int,
)
    requires
        has_more_apps(before, after, items, more),
        0 <= j <= items.len(),
    ensures
        ({
            let n = profiles.len() as int;
            apps_fault(profiles.push((name, before)), n, j) is Some ==> apps_fault(
                profiles.push((name, after)),
                n,
                j,
            ) == apps_fault(profiles.push((name, before)), n, j)
        }),
    decreases items.len() - j,
{
    let a = profiles.push((name, before));
    let b = profiles.push((name, after));
    let n = profiles.len() as int;
    assert(a[n] == (name, before) && b[n] == (name, after));
    assert(apps_of(before) == items && apps_of(after) == items + more);
    if j < items.len() {
        lemma_more_apps(profiles, name, before, after, items, more, j + 1);
        assert((items + more)[j] == items[j]);
        if items[j].text() is Some {
            let app = items[j].text()->0;
            lemma_owner_in_front(profiles, seq![(name, before)], n, app);
            lemma_owner_in_front(profiles, seq![(name, after)], n, app);
            assert(profiles + seq![(name, before)] == a);
            assert(profiles + seq![(name, after)] == b);
        }
    }
}

/// The first entry of a profile that is wrong, or that another profile has, is the one
/// that is told of: entries behind it do not change the refusal.
pub proof fn law_first_bad_entry_is_told(
    short: JsonView,
    long: JsonView,
    profiles: Seq<(Seq<char>, JsonView)>,
    name: Seq<char>,
    before: JsonView,
    after: JsonView,
    items: Seq<JsonView>,
    more: Seq<JsonView>,
    packages: Map<Seq<char>, u32>,
)
    requires
        short is Object,
        long is Object,
        short.field("version"@) == long.field("version"@),
        short.field("profiles"@) == Some(JsonView::Object(profiles.push((name, before)))),
        long.field("profiles"@) == Some(JsonView::Object(profiles.push((name, after)))),
        has_more_apps(before, after, items, more),
        ({
            let fault = config_fault(short, packages);
            ||| fault matches Some(Refusal::AppNotText { .. })
            ||| fault matches Some(Refusal::InvalidApp { .. })
            ||| fault matches Some(Refusal::AppClaimed { .. })
        }),
    ensures
        config_fault(long, packages) == config_fault(short, packages),
{
    let a = profiles.push((name, before));
    let b = profiles.push((name, after));
    let n = profiles.len() as int;
    assert(profiles_of(short) == Some(a));
    assert(profiles_of(long) == Some(b));
    assert(profiles + seq![(name, before)] == a);
    assert(profiles + seq![(name, after)] == b);
    lemma_uid_fault_is_there(a, packages, 0);
    lemma_in_front(profiles, seq![(name, before)], 0);
    lemma_in_front(profiles, seq![(name, after)], 0);
    if profiles_fault(profiles, 0) is None {
        lemma_last_profile(profiles, (name, before), 0);
        lemma_last_profile(profiles, (name, after), 0);
        lemma_more_apps(profiles, name, before, after, items, more, 0);
        assert(a[n] == (name, before) && b[n] == (name, after));
        assert(apps_of(before) == items && apps_of(after) == items + more);
        lemma_same_form(name, before, after, items, more);
        assert(crate::config::new_apps_taken(a, n) == crate::config::new_apps_taken(b, n)) by {
            if crate::config::new_apps_taken(a, n) {
                let k = choose|k: int| 0 <= k < n && takes_new_apps(#[trigger] a[k].1);
                assert(takes_new_apps(b[k].1));
            }
            if crate::config::new_apps_taken(b, n) {
                let k = choose|k: int| 0 <= k < n && takes_new_apps(#[trigger] b[k].1);
                assert(takes_new_apps(a[k].1));
            }
        }
        assert(share_fault(b, n) is None || share_fault(b, n) == share_fault(a, n));
    }
}

proof fn lemma_same_form(
    name: Seq<char>,
    before: JsonView,
    after: JsonView,
    items: Seq<JsonView>,
    more: Seq<JsonView>,
)
    requires
        has_more_apps(before, after, items, more),
    ensures
        form_fault(name, after) == form_fault(name, before),
        takes_new_apps(after) == takes_new_apps(before),
{
    reveal_strlit("apps");
    reveal_strlit("keybox");
    reveal_strlit("autoIncludeNewApps");
    reveal_strlit("mode");
    reveal_strlit("patchLevel");
    assert("mode"@[0] != "apps"@[0]);
    assert("keybox"@.len() != "apps"@.len());
    assert("autoIncludeNewApps"@.len() != "apps"@.len());
    assert("patchLevel"@.len() != "apps"@.len());
    assert(after.field("keybox"@) == before.field("keybox"@));
    assert(after.field("autoIncludeNewApps"@) == before.field("autoIncludeNewApps"@));
    assert(after.field("mode"@) == before.field("mode"@));
    assert(after.field("patchLevel"@) == before.field("patchLevel"@));
}

proof fn lemma_last_profile(
    profiles: Seq<(Seq<char>, JsonView)>,
    last: (Seq<char>, JsonView),
    i: int,
)
    requires
        0 <= i <= profiles.len(),
        profiles_fault(profiles, i) is None,
    ensures
        profiles_fault(profiles.push(last), i) == profile_fault(
            profiles.push(last),
            profiles.len() as int,
        ),
    decreases profiles.len() - i,
{
    let all = profiles.push(last);
    if i < profiles.len() {
        lemma_last_profile(profiles, last, i + 1);
        lemma_apps_in_front(profiles, seq![last], i, 0);
        assert(profiles + seq![last] == all);
        assert(all[i] == profiles[i]);
        if crate::config::new_apps_taken(all, i) {
            let k = choose|k: int| 0 <= k < i && takes_new_apps(#[trigger] all[k].1);
            assert(takes_new_apps(profiles[k].1));
        }
        if crate::config::new_apps_taken(profiles, i) {
            let k = choose|k: int| 0 <= k < i && takes_new_apps(#[trigger] profiles[k].1);
            assert(takes_new_apps(all[k].1));
        }
        assert(profile_fault(all, i) == profile_fault(profiles, i));
    } else {
        assert(profiles_fault(all, i + 1) is None);
    }
}

} // verus!
