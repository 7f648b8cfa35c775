//! Laws of the profiles: which one is selected, and what a change of it does.
use crate::config::{apps_of, config_fault, profiles_of};
use crate::error::Refusal;
use crate::json::{law_entry_is_read_back, lemma_lookup_at, lookup, JsonView};
use crate::laws::config::{entry_at, is_entry, lemma_lists_entry, lemma_lists_uid};
use crate::laws::json::law_lookup;
use crate::packages::uid_of_entry;
use crate::profiles::{
    claims, is_taken, patch_level, selected_name, selected_object, setting_of, status_of,
    taken_entries, text_array, text_items, updated_apps, updated_levels, updated_selected_apps,
    with_apps, Setting,
};
use crate::text::joined;
use vstd::prelude::*;

verus! {

/// A profile has this name.
pub open spec fn has_profile(profiles: Seq<(Seq<char>, JsonView)>, name: Seq<char>) -> bool {
    exists|i: int| 0 <= i < profiles.len() && (#[trigger] profiles[i]).0 == name
}

proof fn lemma_has_profile(profiles: Seq<(Seq<char>, JsonView)>, name: Seq<char>)
    ensures
        has_profile(profiles, name) <==> lookup(profiles, name) is Some,
{
    lemma_lookup_at(profiles, name);
    if lookup(profiles, name) is Some {
        let k = choose|k: int|
            0 <= k < profiles.len() && #[trigger] profiles[k].0 == name && Some(profiles[k].1)
                == lookup(profiles, name);
        assert(profiles[k].0 == name);
    }
}

/// A single profile is the selected one, whatever the settings say. Of several it is the
/// one that the settings name; that they name none, or one that is not there, or could not
/// be loaded, is told.
pub proof fn law_selection(
    config: JsonView,
    profiles: Seq<(Seq<char>, JsonView)>,
    configured: Setting,
)
    requires
        config.field("profiles"@) == Some(JsonView::Object(profiles)),
    ensures
        profiles.len() == 1 ==> selected_name(config, configured) == Ok::<
            Seq<char>,
            Refusal<Seq<char>>,
        >(profiles[0].0),
        profiles.len() != 1 ==> match configured {
            Err(words) => selected_name(config, configured) == Err::<
                Seq<char>,
                Refusal<Seq<char>>,
            >(Refusal::SettingsFailed { words }),
            Ok(name) => {
                &&& name.len() == 0 ==> selected_name(config, configured) == Err::<
                    Seq<char>,
                    Refusal<Seq<char>>,
                >(Refusal::NoProfileSelected)
                &&& name.len() > 0 && has_profile(profiles, name) ==> selected_name(
                    config,
                    configured,
                ) == Ok::<Seq<char>, Refusal<Seq<char>>>(name)
                &&& name.len() > 0 && !has_profile(profiles, name) ==> selected_name(
                    config,
                    configured,
                ) == Err::<Seq<char>, Refusal<Seq<char>>>(
                    Refusal::ConfiguredProfileMissing { name },
                )
            },
        },
{
    if configured is Ok {
        lemma_has_profile(profiles, configured->Ok_0);
    }
}

/// Without an object of profiles nothing is selected.
pub proof fn law_no_selection(config: JsonView, configured: Setting)
    requires
        !(config.field("profiles"@) matches Some(JsonView::Object(_))),
    ensures
        selected_name(config, configured) == Err::<Seq<char>, Refusal<Seq<char>>>(
            Refusal::ProfilesNotObject,
        ),
        selected_object(config, configured) == Err::<JsonView, Refusal<Seq<char>>>(
            Refusal::ProfilesNotObject,
        ),
{
}

/// The profile at place `i` is there, and no profile before it has its name.
pub open spec fn is_first(profiles: Seq<(Seq<char>, JsonView)>, i: int) -> bool {
    0 <= i < profiles.len() && forall|k: int|
        0 <= k < i ==> (#[trigger] profiles[k]).0 != profiles[i].0
}

/// The selected profile is the one that has the selected name.
pub proof fn law_selected_profile(
    config: JsonView,
    profiles: Seq<(Seq<char>, JsonView)>,
    configured: Setting,
    i: int,
)
    requires
        config.field("profiles"@) == Some(JsonView::Object(profiles)),
        is_first(profiles, i),
        selected_name(config, configured) == Ok::<Seq<char>, Refusal<Seq<char>>>(profiles[i].0),
    ensures
        profiles[i].1 is Object ==> selected_object(config, configured) == Ok::<
            JsonView,
            Refusal<Seq<char>>,
        >(profiles[i].1),
        profiles[i].1 !is Object ==> selected_object(config, configured) == Err::<
            JsonView,
            Refusal<Seq<char>>,
        >(Refusal::SelectedNotObject),
{
    let front = profiles.take(i);
    assert forall|k: int| 0 <= k < front.len() implies #[trigger] front[k].0
        != profiles[i].0 by {
        assert(front[k] == profiles[k]);
    }
    law_lookup(front, profiles[i].0, profiles[i].1, profiles.skip(i + 1));
    assert(profiles == front + seq![(profiles[i].0, profiles[i].1)] + profiles.skip(i + 1));
}

/// The apps of a profile are what stands in the list under `apps`, and none where there is
/// no list.
pub proof fn law_app_list(profile: JsonView, items: Seq<JsonView>)
    ensures
        profile.field("apps"@) == Some(JsonView::Array(items)) ==> apps_of(profile) == items,
        !(profile.field("apps"@) matches Some(JsonView::Array(_))) ==> apps_of(profile).len() == 0,
{
}

/// Of a list the texts count, in their order, and nothing else.
pub proof fn law_texts_of_a_list(a: Seq<JsonView>, b: Seq<JsonView>, item: JsonView)
    ensures
        text_items(a + b) == text_items(a) + text_items(b),
        text_items(seq![item]) == match item {
            JsonView::Text(text) => seq![text],
            _ => Seq::<Seq<char>>::empty(),
        },
        text_items(seq![]) == Seq::<Seq<char>>::empty(),
    decreases b.len(),
{
    let all = a + b;
    let single = seq![item];
    assert(single.drop_last() == Seq::<JsonView>::empty());
    assert(single.last() == item);
    assert(text_items(Seq::<JsonView>::empty()) == Seq::<Seq<char>>::empty());
    assert(text_items(single) == match item {
        JsonView::Text(text) => seq![text],
        _ => Seq::<Seq<char>>::empty(),
    });
    if b.len() > 0 {
        law_texts_of_a_list(a, b.drop_last(), item);
        assert(all.drop_last() == a + b.drop_last());
        assert(all.last() == b.last());
        assert(text_items(all) == text_items(a) + text_items(b));
    } else {
        assert(all == a);
        assert(text_items(a) + text_items(b) == text_items(a));
    }
}

/// A patch level is the text under its key in the object under `patchLevel`, and empty
/// where there is none.
pub proof fn law_patch_level(profile: JsonView, patch: JsonView, key: Seq<char>, level: Seq<char>)
    ensures
        profile.field("patchLevel"@) == Some(patch) && patch.field(key) == Some(
            JsonView::Text(level),
        ) ==> patch_level(profile, key) == level,
        profile.field("patchLevel"@) == Some(patch) && !(patch.field(key) matches Some(
            JsonView::Text(_),
        )) ==> patch_level(profile, key).len() == 0,
        profile.field("patchLevel"@) is None ==> patch_level(profile, key).len() == 0,
{
}

/// Another profile has this entry, or an entry of its UID.
pub open spec fn is_claimed_elsewhere(
    profiles: Seq<(Seq<char>, JsonView)>,
    selected: Seq<char>,
    entry: Seq<char>,
    packages: Map<Seq<char>, u32>,
) -> bool {
    exists|k: int, j: int|
        {
            &&& 0 <= k < profiles.len()
            &&& profiles[k].0 != selected
            &&& #[trigger] is_entry(profiles[k].1, j)
            &&& {
                ||| entry_at(profiles[k].1, j) == entry
                ||| uid_of_entry(entry, packages) is Some && uid_of_entry(
                    entry_at(profiles[k].1, j),
                    packages,
                ) == uid_of_entry(entry, packages)
            }
        }
}

/// An entry is refused if and only if another profile has it, or an entry of its UID.
pub proof fn law_claims(
    profiles: Seq<(Seq<char>, JsonView)>,
    selected: Seq<char>,
    entry: Seq<char>,
    packages: Map<Seq<char>, u32>,
)
    ensures
        taken_entries(profiles, selected, seq![entry], packages) == if is_claimed_elsewhere(
            profiles,
            selected,
            entry,
            packages,
        ) {
            seq![entry]
        } else {
            Seq::<Seq<char>>::empty()
        },
{
    lemma_claimed(profiles, selected, entry, packages);
    let single = seq![entry];
    assert(single.drop_last() == Seq::<Seq<char>>::empty());
    assert(taken_entries(profiles, selected, Seq::<Seq<char>>::empty(), packages) == Seq::<
        Seq<char>,
    >::empty());
    assert(taken_entries(profiles, selected, single, packages) == if is_claimed_elsewhere(
        profiles,
        selected,
        entry,
        packages,
    ) {
        seq![entry]
    } else {
        Seq::<Seq<char>>::empty()
    });
}

proof fn lemma_claimed(
    profiles: Seq<(Seq<char>, JsonView)>,
    selected: Seq<char>,
    entry: Seq<char>,
    packages: Map<Seq<char>, u32>,
)
    ensures
        is_taken(profiles, selected, entry, packages) <==> is_claimed_elsewhere(
            profiles,
            selected,
            entry,
            packages,
        ),
{
    if is_taken(profiles, selected, entry, packages) {
        let k = choose|k: int|
            0 <= k < profiles.len() && (#[trigger] profiles[k]).0 != selected && claims(
                profiles[k].1,
                entry,
                packages,
            );
        let profile = profiles[k].1;
        if apps_of(profile).contains(JsonView::Text(entry)) {
            lemma_lists_entry(profile, entry);
            let j = choose|j: int| #[trigger] is_entry(profile, j) && entry_at(profile, j) == entry;
            assert(is_entry(profiles[k].1, j));
        } else {
            let uid = uid_of_entry(entry, packages)->0;
            lemma_lists_uid(profile, uid, packages);
            let j = choose|j: int| #[trigger]
                is_entry(profile, j) && uid_of_entry(entry_at(profile, j), packages) == Some(uid);
            assert(is_entry(profiles[k].1, j));
        }
    }
    if is_claimed_elsewhere(profiles, selected, entry, packages) {
        let (k, j) = choose|k: int, j: int|
            {
                &&& 0 <= k < profiles.len()
                &&& profiles[k].0 != selected
                &&& #[trigger] is_entry(profiles[k].1, j)
                &&& {
                    ||| entry_at(profiles[k].1, j) == entry
                    ||| uid_of_entry(entry, packages) is Some && uid_of_entry(
                        entry_at(profiles[k].1, j),
                        packages,
                    ) == uid_of_entry(entry, packages)
                }
            };
        let profile = profiles[k].1;
        lemma_lists_entry(profile, entry);
        if uid_of_entry(entry, packages) is Some {
            lemma_lists_uid(profile, uid_of_entry(entry, packages)->0, packages);
        }
        assert(claims(profile, entry, packages));
        assert(profiles[k].0 != selected);
    }
}

/// Each entry is judged by itself: what is refused of two lists is what is refused of the
/// one and then of the other.
pub proof fn law_entries_are_judged_one_by_one(
    profiles: Seq<(Seq<char>, JsonView)>,
    selected: Seq<char>,
    a: Seq<Seq<char>>,
    b: Seq<Seq<char>>,
    packages: Map<Seq<char>, u32>,
)
    ensures
        taken_entries(profiles, selected, a + b, packages) == taken_entries(
            profiles,
            selected,
            a,
            packages,
        ) + taken_entries(profiles, selected, b, packages),
    decreases b.len(),
{
    let all = a + b;
    if b.len() > 0 {
        law_entries_are_judged_one_by_one(profiles, selected, a, b.drop_last(), packages);
        assert(all.drop_last() == a + b.drop_last());
        assert(all.last() == b.last());
        assert(taken_entries(profiles, selected, all, packages) == taken_entries(
            profiles,
            selected,
            a,
            packages,
        ) + taken_entries(profiles, selected, b, packages));
    } else {
        assert(all == a);
        assert(taken_entries(profiles, selected, a, packages) + taken_entries(
            profiles,
            selected,
            b,
            packages,
        ) == taken_entries(profiles, selected, a, packages));
    }
}

proof fn lemma_nothing_taken(
    profiles: Seq<(Seq<char>, JsonView)>,
    selected: Seq<char>,
    entries: Seq<Seq<char>>,
    packages: Map<Seq<char>, u32>,
)
    ensures
        taken_entries(profiles, selected, entries, packages).len() == 0 <==> forall|i: int|
            0 <= i < entries.len() ==> !is_claimed_elsewhere(
                profiles,
                selected,
                #[trigger] entries[i],
                packages,
            ),
    decreases entries.len(),
{
    if entries.len() > 0 {
        let before = entries.drop_last();
        lemma_nothing_taken(profiles, selected, before, packages);
        lemma_claimed(profiles, selected, entries.last(), packages);
        assert(entries[entries.len() - 1] == entries.last());
        if forall|i: int|
            0 <= i < entries.len() ==> !is_claimed_elsewhere(
                profiles,
                selected,
                #[trigger] entries[i],
                packages,
            ) {
            assert forall|i: int| 0 <= i < before.len() implies !is_claimed_elsewhere(
                profiles,
                selected,
                #[trigger] before[i],
                packages,
            ) by {
                assert(before[i] == entries[i]);
            }
        }
        if taken_entries(profiles, selected, entries, packages).len() == 0 {
            assert forall|i: int| 0 <= i < entries.len() implies !is_claimed_elsewhere(
                profiles,
                selected,
                #[trigger] entries[i],
                packages,
            ) by {
                if i < before.len() {
                    assert(before[i] == entries[i]);
                }
            }
        }
    }
}

/// Apps are given to a profile if and only if it is there and no other profile has one of
/// them, or an app of the UID of one. Else the refusal tells the apps that others have, in
/// their order, or that there is no such profile.
pub proof fn law_apps_are_given(
    config: JsonView,
    profiles: Seq<(Seq<char>, JsonView)>,
    entries: Seq<Seq<char>>,
    selected: Seq<char>,
    packages: Map<Seq<char>, u32>,
)
    requires
        config.field("profiles"@) == Some(JsonView::Object(profiles)),
    ensures
        ({
            let free = forall|i: int|
                0 <= i < entries.len() ==> !is_claimed_elsewhere(
                    profiles,
                    selected,
                    #[trigger] entries[i],
                    packages,
                );
            let result = updated_apps(config, entries, selected, packages);
            &&& result is Ok <==> free && has_profile(profiles, selected)
            &&& free && !has_profile(profiles, selected) ==> result == Err::<
                JsonView,
                Refusal<Seq<char>>,
            >(Refusal::SelectedMissing)
            &&& !free ==> result == Err::<JsonView, Refusal<Seq<char>>>(
                Refusal::AppsAssigned {
                    apps: joined(
                        taken_entries(profiles, selected, entries, packages),
                        ", "@,
                    ),
                },
            )
        }),
{
    lemma_nothing_taken(profiles, selected, entries, packages);
    lemma_has_profile(profiles, selected);
}

/// The profile that is given apps holds them as texts under `apps`, in their order; every
/// other field of it stays, and so does every other profile and every other field of the
/// config. A profile that was null holds nothing else.
pub proof fn law_given_apps_are_held(
    config: JsonView,
    entries: Seq<Seq<char>>,
    selected: Seq<char>,
    packages: Map<Seq<char>, u32>,
    profile: JsonView,
    other: Seq<char>,
    field: Seq<char>,
)
    requires
        updated_apps(config, entries, selected, packages) is Ok,
        config.field("profiles"@) matches Some(JsonView::Object(profiles)) && lookup(
            profiles,
            selected,
        ) == Some(profile),
        profile is Object || profile is Null,
    ensures
        ({
            let after = updated_apps(config, entries, selected, packages)->Ok_0;
            &&& after.field("profiles"@) matches Some(JsonView::Object(changed)) && {
                &&& lookup(changed, selected) matches Some(JsonView::Object(fields)) && {
                    &&& lookup(fields, "apps"@) matches Some(JsonView::Array(items)) && {
                        &&& items.len() == entries.len()
                        &&& forall|i: int|
                            0 <= i < items.len() ==> #[trigger] items[i] == JsonView::Text(
                                entries[i],
                            )
                    }
                    &&& field != "apps"@ ==> lookup(fields, field) == profile.field(field)
                }
                &&& other != selected ==> lookup(changed, other) == lookup(
                    config.field("profiles"@)->0->Object_0,
                    other,
                )
            }
            &&& field != "profiles"@ ==> after.field(field) == config.field(field)
        }),
{
    let profiles = config.field("profiles"@)->0->Object_0;
    let fields = if profile is Null {
        seq![]
    } else {
        profile->Object_0
    };
    let given = with_apps(profile, entries);
    law_entry_is_read_back(fields, "apps"@, text_array(entries), field);
    law_entry_is_read_back(profiles, selected, given, other);
    law_entry_is_read_back(
        config->Object_0,
        "profiles"@,
        JsonView::Object(crate::json::with_entry(profiles, selected, given)),
        field,
    );
}

/// Patch levels are given to the selected profile if and only if it is an object whose
/// patch level is one too, or is not there; it then holds them as texts.
pub proof fn law_levels_are_given(
    config: JsonView,
    profiles: Seq<(Seq<char>, JsonView)>,
    configured: Setting,
    levels: (Seq<char>, Seq<char>, Seq<char>),
)
    requires
        config.field("profiles"@) == Some(JsonView::Object(profiles)),
        selected_name(config, configured) is Ok,
    ensures
        ({
            let selected = selected_name(config, configured)->Ok_0;
            let result = updated_levels(config, configured, levels.0, levels.1, levels.2);
            match lookup(profiles, selected) {
                Some(JsonView::Object(fields)) => {
                    let patch = lookup(fields, "patchLevel"@);
                    &&& result is Ok <==> (patch is None || patch->0 is Object)
                    &&& result is Err ==> result == Err::<JsonView, Refusal<Seq<char>>>(
                        Refusal::SelectedPatchNotObject,
                    )
                    &&& result is Ok ==> {
                        &&& result->Ok_0.field("profiles"@) matches Some(JsonView::Object(changed))
                            && lookup(changed, selected) matches Some(profile)
                            && profile.field("patchLevel"@) matches Some(after) && {
                            &&& after.field("system"@) == Some(JsonView::Text(levels.0))
                            &&& after.field("boot"@) == Some(JsonView::Text(levels.1))
                            &&& after.field("vendor"@) == Some(JsonView::Text(levels.2))
                        }
                    }
                },
                _ => result == Err::<JsonView, Refusal<Seq<char>>>(Refusal::ChangedNotObject),
            }
        }),
{
    let selected = selected_name(config, configured)->Ok_0;
    let result = updated_levels(config, configured, levels.0, levels.1, levels.2);
    if result is Ok {
        let profile = lookup(profiles, selected)->0;
        let patch = match profile.field("patchLevel"@) {
            Some(patch) => patch,
            None => JsonView::Object(seq![]),
        };
        let one = patch.with_field("system"@, JsonView::Text(levels.0));
        let two = one.with_field("boot"@, JsonView::Text(levels.1));
        let three = two.with_field("vendor"@, JsonView::Text(levels.2));
        let changed = profile.with_field("patchLevel"@, three);
        crate::profiles::law_other_profiles_stay(config, selected, changed, selected, selected);
        law_entry_is_read_back(profile->Object_0, "patchLevel"@, three, "patchLevel"@);
        law_entry_is_read_back(
            config->Object_0,
            "profiles"@,
            JsonView::Object(crate::json::with_entry(profiles, selected, changed)),
            "profiles"@,
        );
        reveal_strlit("system");
        reveal_strlit("boot");
        reveal_strlit("vendor");
        assert("system"@.len() != "boot"@.len());
        assert("system"@[0] != "vendor"@[0]);
        assert("boot"@.len() != "vendor"@.len());
        law_entry_is_read_back(patch->Object_0, "system"@, JsonView::Text(levels.0), "system"@);
        law_entry_is_read_back(one->Object_0, "boot"@, JsonView::Text(levels.1), "system"@);
        law_entry_is_read_back(two->Object_0, "vendor"@, JsonView::Text(levels.2), "system"@);
        law_entry_is_read_back(two->Object_0, "vendor"@, JsonView::Text(levels.2), "boot"@);
    }
}

/// The status of an accepted config names its profiles in their order, says that a single
/// one is selected of itself, and that of several the configured one is, where it is there.
pub proof fn law_status(
    config: JsonView,
    profiles: Seq<(Seq<char>, JsonView)>,
    configured: Seq<char>,
    packages: Map<Seq<char>, u32>,
)
    requires
        config.field("profiles"@) == Some(JsonView::Object(profiles)),
    ensures
        match config_fault(config, packages) {
            Some(e) => status_of(config, configured, packages) == Err::<
                crate::profiles::StatusView,
                Refusal<Seq<char>>,
            >(e),
            None => status_of(config, configured, packages) matches Ok(status) && {
                &&& status.available
                &&& status.profiles.len() == profiles.len()
                &&& forall|i: int|
                    0 <= i < profiles.len() ==> #[trigger] status.profiles[i] == profiles[i].0
                &&& status.automatic <==> profiles.len() == 1
                &&& profiles.len() == 1 ==> status.selected == Some(profiles[0].0)
                &&& profiles.len() != 1 && has_profile(profiles, configured) ==> status.selected
                    == Some(configured)
                &&& profiles.len() != 1 && !has_profile(profiles, configured)
                    ==> status.selected is None
            },
        },
{
    lemma_has_profile(profiles, configured);
    assert(profiles_of(config) == Some(profiles));
}

/// Apps are given to the selected profile, or refused as the selection is.
pub proof fn law_apps_go_to_the_selected_profile(
    config: JsonView,
    entries: Seq<Seq<char>>,
    configured: Setting,
    packages: Map<Seq<char>, u32>,
)
    ensures
        match selected_name(config, configured) {
            Err(e) => updated_selected_apps(config, entries, configured, packages) == Err::<
                JsonView,
                Refusal<Seq<char>>,
            >(e) && updated_levels(config, configured, seq![], seq![], seq![]) == Err::<
                JsonView,
                Refusal<Seq<char>>,
            >(e),
            Ok(selected) => updated_selected_apps(config, entries, configured, packages)
                == updated_apps(config, entries, selected, packages),
        },
{
}

/// The setting is the name that was configured, or the words of the failure.
pub proof fn law_settings(configured: Result<String, String>)
    ensures
        match configured {
            Ok(name) => setting_of(configured) == Ok::<Seq<char>, Seq<char>>(name@),
            Err(words) => setting_of(configured) == Err::<Seq<char>, Seq<char>>(words@),
        },
{
}

} // verus!
