//! Documents that differ in numbers other than integers: to the rules they are the same.
use crate::config::{
    app_fault, app_owner, app_uids, apps_fault, apps_of, config_fault, form_fault, new_apps_taken,
    ownership_fault, patch_fault, patch_field_fault, profile_fault, profiles_fault, profiles_of,
    share_fault, takes_new_apps, uid_owner, uids_fault,
};
use crate::json::{lookup, JsonNumber, JsonView};
use crate::profiles::{patch_level, selected_name, selected_object, text_items, Setting};
use vstd::prelude::*;

verus! {

/// The entries have the same keys, and values that are alike.
pub open spec fn entries_alike(
    a: Seq<(Seq<char>, JsonView)>,
    b: Seq<(Seq<char>, JsonView)>,
) -> bool {
    a.len() == b.len() && forall|i: int|
        0 <= i < a.len() ==> (#[trigger] a[i]).0 == b[i].0 && a[i].1.alike(b[i].1)
}

/// The elements are alike.
pub open spec fn items_alike(a: Seq<JsonView>, b: Seq<JsonView>) -> bool {
    a.len() == b.len() && forall|i: int| 0 <= i < a.len() ==> (#[trigger] a[i]).alike(b[i])
}

/// Both are absent, or both are there and alike.
pub open spec fn options_alike(a: Option<JsonView>, b: Option<JsonView>) -> bool {
    match (a, b) {
        (Some(x), Some(y)) => x.alike(y),
        (None, None) => true,
        _ => false,
    }
}

proof fn lemma_parts(a: JsonView, b: JsonView)
    requires
        a.alike(b),
    ensures
        a.text() == b.text(),
        a is Bool || b is Bool ==> a == b,
        a is Text || b is Text ==> a == b,
        a == JsonView::Number(JsonNumber::Unsigned(1)) <==> b == JsonView::Number(
            JsonNumber::Unsigned(1),
        ),
        a is Array <==> b is Array,
        a is Object <==> b is Object,
        a is Array ==> items_alike(a->Array_0, b->Array_0),
        a is Object ==> entries_alike(a->Object_0, b->Object_0),
{
    reveal_with_fuel(JsonView::alike, 2);
    if a is Array {
        let x = a->Array_0;
        let y = b->Array_0;
        assert forall|i: int| 0 <= i < x.len() implies (#[trigger] x[i]).alike(y[i]) by {}
    }
    if a is Object {
        let x = a->Object_0;
        let y = b->Object_0;
        assert forall|i: int| 0 <= i < x.len() implies (#[trigger] x[i]).0 == y[i].0
            && x[i].1.alike(y[i].1) by {}
    }
}

proof fn lemma_lookup(
    a: Seq<(Seq<char>, JsonView)>,
    b: Seq<(Seq<char>, JsonView)>,
    key: Seq<char>,
)
    requires
        entries_alike(a, b),
    ensures
        options_alike(lookup(a, key), lookup(b, key)),
    decreases a.len(),
{
    if a.len() > 0 {
        assert(a[0].0 == b[0].0 && a[0].1.alike(b[0].1));
        let x = a.drop_first();
        let y = b.drop_first();
        assert forall|i: int| 0 <= i < x.len() implies (#[trigger] x[i]).0 == y[i].0
            && x[i].1.alike(y[i].1) by {
            assert(x[i] == a[i + 1] && y[i] == b[i + 1]);
        }
        lemma_lookup(x, y, key);
    }
}

proof fn lemma_field(a: JsonView, b: JsonView, key: Seq<char>)
    requires
        a.alike(b),
    ensures
        options_alike(a.field(key), b.field(key)),
        a.field(key) is Some ==> {
            let x = a.field(key)->0;
            let y = b.field(key)->0;
            &&& x.text() == y.text()
            &&& x is Bool || y is Bool ==> x == y
            &&& x is Text || y is Text ==> x == y
            &&& x == JsonView::Number(JsonNumber::Unsigned(1)) <==> y == JsonView::Number(
                JsonNumber::Unsigned(1),
            )
            &&& x is Array <==> y is Array
            &&& x is Object <==> y is Object
            &&& x is Array ==> items_alike(x->Array_0, y->Array_0)
            &&& x is Object ==> entries_alike(x->Object_0, y->Object_0)
        },
{
    lemma_parts(a, b);
    if a is Object {
        lemma_lookup(a->Object_0, b->Object_0, key);
    }
    if a.field(key) is Some {
        lemma_parts(a.field(key)->0, b.field(key)->0);
    }
}

proof fn lemma_profile(a: JsonView, b: JsonView)
    requires
        a.alike(b),
    ensures
        items_alike(apps_of(a), apps_of(b)),
        takes_new_apps(a) == takes_new_apps(b),
        forall|name: Seq<char>| #[trigger] form_fault(name, a) == form_fault(name, b),
        forall|key: Seq<char>| #[trigger] patch_level(a, key) == patch_level(b, key),
{
    lemma_parts(a, b);
    lemma_field(a, b, "apps"@);
    lemma_field(a, b, "autoIncludeNewApps"@);
    lemma_field(a, b, "keybox"@);
    lemma_field(a, b, "mode"@);
    lemma_field(a, b, "patchLevel"@);
    assert forall|key: Seq<char>| #[trigger] patch_level(a, key) == patch_level(b, key) by {
        if a.field("patchLevel"@) is Some {
            lemma_field(a.field("patchLevel"@)->0, b.field("patchLevel"@)->0, key);
        }
    }
    assert forall|name: Seq<char>| #[trigger] form_fault(name, a) == form_fault(name, b) by {
        if a.field("patchLevel"@) is Some {
            let x = a.field("patchLevel"@)->0;
            let y = b.field("patchLevel"@)->0;
            lemma_field(x, y, "system"@);
            lemma_field(x, y, "vendor"@);
            lemma_field(x, y, "boot"@);
            assert(patch_field_fault(name, x, "system"@) == patch_field_fault(
                name,
                y,
                "system"@,
            ));
            assert(patch_field_fault(name, x, "vendor"@) == patch_field_fault(
                name,
                y,
                "vendor"@,
            ));
            assert(patch_field_fault(name, x, "boot"@) == patch_field_fault(name, y, "boot"@));
        }
        assert(patch_fault(name, a) == patch_fault(name, b));
    }
}

proof fn lemma_has_app(a: Seq<JsonView>, b: Seq<JsonView>, app: Seq<char>)
    requires
        items_alike(a, b),
    ensures
        a.contains(JsonView::Text(app)) == b.contains(JsonView::Text(app)),
{
    if a.contains(JsonView::Text(app)) {
        let k = choose|k: int| 0 <= k < a.len() && a[k] == JsonView::Text(app);
        lemma_parts(a[k], b[k]);
        assert(b[k] == JsonView::Text(app));
    }
    if b.contains(JsonView::Text(app)) {
        let k = choose|k: int| 0 <= k < b.len() && b[k] == JsonView::Text(app);
        assert(a[k].alike(b[k]));
        lemma_parts(a[k], b[k]);
        assert(a[k] == JsonView::Text(app));
    }
}

proof fn lemma_app_owner(
    a: Seq<(Seq<char>, JsonView)>,
    b: Seq<(Seq<char>, JsonView)>,
    n: int,
    app: Seq<char>,
)
    requires
        entries_alike(a, b),
        n <= a.len(),
    ensures
        app_owner(a, n, app) == app_owner(b, n, app),
    decreases n,
{
    if n > 0 {
        lemma_app_owner(a, b, n - 1, app);
        assert(a[n - 1].0 == b[n - 1].0 && a[n - 1].1.alike(b[n - 1].1));
        lemma_profile(a[n - 1].1, b[n - 1].1);
        lemma_has_app(apps_of(a[n - 1].1), apps_of(b[n - 1].1), app);
    }
}

proof fn lemma_share(a: Seq<(Seq<char>, JsonView)>, b: Seq<(Seq<char>, JsonView)>, i: int)
    requires
        entries_alike(a, b),
        0 <= i < a.len(),
    ensures
        share_fault(a, i) == share_fault(b, i),
{
    assert(a[i].0 == b[i].0 && a[i].1.alike(b[i].1));
    lemma_profile(a[i].1, b[i].1);
    assert forall|k: int| 0 <= k < i implies takes_new_apps(#[trigger] a[k].1) == takes_new_apps(
        b[k].1,
    ) by {
        assert(a[k].1.alike(b[k].1));
        lemma_profile(a[k].1, b[k].1);
    }
    if new_apps_taken(a, i) {
        let k = choose|k: int| 0 <= k < i && takes_new_apps(#[trigger] a[k].1);
        assert(takes_new_apps(b[k].1));
    }
    if new_apps_taken(b, i) {
        let k = choose|k: int| 0 <= k < i && takes_new_apps(#[trigger] b[k].1);
        assert(takes_new_apps(a[k].1));
    }
}

proof fn lemma_apps(a: Seq<(Seq<char>, JsonView)>, b: Seq<(Seq<char>, JsonView)>, i: int, j: int)
    requires
        entries_alike(a, b),
        0 <= i < a.len(),
    ensures
        apps_fault(a, i, j) == apps_fault(b, i, j),
    decreases apps_of(a[i].1).len() - j,
{
    assert(a[i].0 == b[i].0 && a[i].1.alike(b[i].1));
    lemma_profile(a[i].1, b[i].1);
    let x = apps_of(a[i].1);
    let y = apps_of(b[i].1);
    if 0 <= j < x.len() {
        lemma_apps(a, b, i, j + 1);
        assert(x[j].alike(y[j]));
        lemma_parts(x[j], y[j]);
        if x[j].text() is Some {
            lemma_app_owner(a, b, i, x[j].text()->0);
        }
        assert(app_fault(a, i, x[j]) == app_fault(b, i, y[j]));
    }
}

proof fn lemma_profiles(a: Seq<(Seq<char>, JsonView)>, b: Seq<(Seq<char>, JsonView)>, i: int)
    requires
        entries_alike(a, b),
    ensures
        profiles_fault(a, i) == profiles_fault(b, i),
    decreases a.len() - i,
{
    if 0 <= i < a.len() {
        lemma_profiles(a, b, i + 1);
        assert(a[i].0 == b[i].0 && a[i].1.alike(b[i].1));
        lemma_profile(a[i].1, b[i].1);
        lemma_share(a, b, i);
        lemma_apps(a, b, i, 0);
        assert(profile_fault(a, i) == profile_fault(b, i));
    }
}

proof fn lemma_uids(a: Seq<JsonView>, b: Seq<JsonView>, packages: Map<Seq<char>, u32>)
    requires
        items_alike(a, b),
    ensures
        app_uids(a, packages) == app_uids(b, packages),
        text_items(a) == text_items(b),
    decreases a.len(),
{
    if a.len() > 0 {
        let x = a.drop_last();
        let y = b.drop_last();
        assert forall|i: int| 0 <= i < x.len() implies (#[trigger] x[i]).alike(y[i]) by {
            assert(x[i] == a[i] && y[i] == b[i]);
        }
        lemma_uids(x, y, packages);
        assert(a[a.len() - 1].alike(b[a.len() - 1]));
        lemma_parts(a.last(), b.last());
    }
}

proof fn lemma_uid_owner(
    a: Seq<(Seq<char>, JsonView)>,
    b: Seq<(Seq<char>, JsonView)>,
    n: int,
    uid: u32,
    packages: Map<Seq<char>, u32>,
)
    requires
        entries_alike(a, b),
        n <= a.len(),
    ensures
        uid_owner(a, n, uid, packages) == uid_owner(b, n, uid, packages),
    decreases n,
{
    if n > 0 {
        lemma_uid_owner(a, b, n - 1, uid, packages);
        assert(a[n - 1].0 == b[n - 1].0 && a[n - 1].1.alike(b[n - 1].1));
        lemma_profile(a[n - 1].1, b[n - 1].1);
        lemma_uids(apps_of(a[n - 1].1), apps_of(b[n - 1].1), packages);
    }
}

proof fn lemma_uids_fault(
    a: Seq<(Seq<char>, JsonView)>,
    b: Seq<(Seq<char>, JsonView)>,
    i: int,
    j: int,
    packages: Map<Seq<char>, u32>,
)
    requires
        entries_alike(a, b),
        0 <= i < a.len(),
    ensures
        uids_fault(a, i, j, packages) == uids_fault(b, i, j, packages),
    decreases app_uids(apps_of(a[i].1), packages).len() - j,
{
    assert(a[i].0 == b[i].0 && a[i].1.alike(b[i].1));
    lemma_profile(a[i].1, b[i].1);
    lemma_uids(apps_of(a[i].1), apps_of(b[i].1), packages);
    let uids = app_uids(apps_of(a[i].1), packages);
    if 0 <= j < uids.len() {
        lemma_uids_fault(a, b, i, j + 1, packages);
        lemma_uid_owner(a, b, i, uids[j], packages);
    }
}

proof fn lemma_ownership(
    a: Seq<(Seq<char>, JsonView)>,
    b: Seq<(Seq<char>, JsonView)>,
    i: int,
    packages: Map<Seq<char>, u32>,
)
    requires
        entries_alike(a, b),
    ensures
        ownership_fault(a, i, packages) == ownership_fault(b, i, packages),
    decreases a.len() - i,
{
    if 0 <= i < a.len() {
        lemma_ownership(a, b, i + 1, packages);
        lemma_uids_fault(a, b, i, 0, packages);
    }
}

/// The rules say the same of documents that are alike: what is wrong with them, which
/// profile is selected, and which apps and patch levels it has.
pub proof fn law_fractions_do_not_matter(
    a: JsonView,
    b: JsonView,
    configured: Setting,
    packages: Map<Seq<char>, u32>,
    key: Seq<char>,
)
    requires
        a.alike(b),
    ensures
        config_fault(a, packages) == config_fault(b, packages),
        selected_name(a, configured) == selected_name(b, configured),
        match (selected_object(a, configured), selected_object(b, configured)) {
            (Ok(x), Ok(y)) => {
                &&& x.alike(y)
                &&& text_items(apps_of(x)) == text_items(apps_of(y))
                &&& patch_level(x, key) == patch_level(y, key)
            },
            (Err(x), Err(y)) => x == y,
            _ => false,
        },
{
    lemma_parts(a, b);
    lemma_field(a, b, "version"@);
    lemma_field(a, b, "profiles"@);
    if profiles_of(a) is Some {
        let x = profiles_of(a)->0;
        let y = profiles_of(b)->0;
        lemma_profiles(x, y, 0);
        lemma_ownership(x, y, 0, packages);
        if x.len() == 1 {
            assert(x[0].0 == y[0].0);
        }
        if configured is Ok {
            lemma_lookup(x, y, configured->Ok_0);
        }
        if selected_name(a, configured) is Ok {
            let name = selected_name(a, configured)->Ok_0;
            lemma_lookup(x, y, name);
            if lookup(x, name) is Some {
                let p = lookup(x, name)->0;
                let q = lookup(y, name)->0;
                lemma_parts(p, q);
                lemma_profile(p, q);
                lemma_uids(apps_of(p), apps_of(q), packages);
            }
        }
    }
}

/// Documents that are alike are the same, where one of them has no number but integers.
pub proof fn law_integral_documents_are_equal(a: JsonView, b: JsonView)
    requires
        a.alike(b),
        a.integral(),
    ensures
        a == b,
    decreases a,
{
    lemma_parts(a, b);
    match a {
        JsonView::Array(x) => {
            let y = b->Array_0;
            assert forall|i: int| 0 <= i < x.len() implies x[i] == y[i] by {
                assert(x[i].alike(y[i]));
                assert(x[i].integral()) by {
                    reveal_with_fuel(JsonView::integral, 2);
                }
                assert(decreases_to!(a => a->Array_0[i]));
                law_integral_documents_are_equal(x[i], y[i]);
            }
            assert(x == y);
        },
        JsonView::Object(x) => {
            let y = b->Object_0;
            assert forall|i: int| 0 <= i < x.len() implies x[i] == y[i] by {
                assert(x[i].0 == y[i].0 && x[i].1.alike(y[i].1));
                assert(x[i].1.integral()) by {
                    reveal_with_fuel(JsonView::integral, 2);
                }
                assert(decreases_to!(a => a->Object_0[i].1));
                law_integral_documents_are_equal(x[i].1, y[i].1);
            }
            assert(x == y);
        },
        _ => {},
    }
}

} // verus!
