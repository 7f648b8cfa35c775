//! JSON documents as plain values.
use crate::text::{chars_of, same};
use vstd::prelude::*;

verus! {

/// A number as `serde_json` holds it.
#[verifier::external_type_specification]
#[verifier::external_body]
pub struct ExNumber(serde_json::Number);

/// A JSON number: one from zero on, one below zero, or any other.
#[derive(Debug, PartialEq, Eq)]
pub enum JsonNumber {
    Unsigned(u64),
    Negative(i64),
    Float(serde_json::Number),
}

/// A JSON document.
#[derive(Debug, PartialEq, Eq)]
pub enum Json {
    Null,
    Bool(bool),
    Number(JsonNumber),
    Text(String),
    Array(Vec<Json>),
    Object(Vec<(String, Json)>),
}

/// What a JSON document says.
#[verifier::ext_equal]
pub ghost enum JsonView {
    Null,
    Bool(bool),
    Number(JsonNumber),
    Text(Seq<char>),
    Array(Seq<JsonView>),
    Object(Seq<(Seq<char>, JsonView)>),
}

impl View for Json {
    type V = JsonView;

    open spec fn view(&self) -> JsonView
        decreases self,
    {
        match self {
            Json::Null => JsonView::Null,
            Json::Bool(b) => JsonView::Bool(*b),
            Json::Number(n) => JsonView::Number(*n),
            Json::Text(s) => JsonView::Text(s@),
            Json::Array(items) => JsonView::Array(
                Seq::new(
                    items@.len(),
                    |i: int|
                        if 0 <= i < items@.len() {
                            items@[i]@
                        } else {
                            JsonView::Null
                        },
                ),
            ),
            Json::Object(entries) => JsonView::Object(
                Seq::new(
                    entries@.len(),
                    |i: int|
                        if 0 <= i < entries@.len() {
                            (entries@[i].0@, entries@[i].1@)
                        } else {
                            (seq![], JsonView::Null)
                        },
                ),
            ),
        }
    }
}

/// What `serde_json::Number::as_u64` and `as_i64` read off a number; a number of
/// which they read nothing stands for itself.
pub uninterp spec fn number_contents(number: serde_json::Number) -> JsonNumber;

impl JsonNumber {
    /// The variant is the one that the number belongs to.
    pub open spec fn wf(self) -> bool {
        match self {
            JsonNumber::Unsigned(_) => true,
            JsonNumber::Negative(n) => n < 0,
            JsonNumber::Float(number) => number_contents(number) == self,
        }
    }
}

/// Whether `a` stands before `b`, character by character.
pub open spec fn before(a: Seq<char>, b: Seq<char>) -> bool
    decreases b.len(),
{
    if b.len() == 0 {
        false
    } else if a.len() == 0 {
        true
    } else if a.first() != b.first() {
        a.first() < b.first()
    } else {
        before(a.drop_first(), b.drop_first())
    }
}

/// Whether `a` stands before `b`, character by character.
pub fn is_before(a: &str, b: &str) -> (r: bool)
    ensures
        r == before(a@, b@),
{
    let left: Vec<char> = chars_of(a);
    let right: Vec<char> = chars_of(b);
    let mut i: usize = 0;
    assert(a@.skip(0) == a@ && b@.skip(0) == b@);
    while i < left.len() && i < right.len() && left[i] == right[i]
        invariant
            i <= left.len(),
            i <= right.len(),
            left@ == a@,
            right@ == b@,
            before(a@, b@) == before(a@.skip(i as int), b@.skip(i as int)),
        decreases left.len() - i,
    {
        assert(a@.skip(i as int).drop_first() == a@.skip(i + 1));
        assert(b@.skip(i as int).drop_first() == b@.skip(i + 1));
        i += 1;
    }
    if i == right.len() {
        false
    } else if i == left.len() {
        true
    } else {
        left[i] < right[i]
    }
}

/// Any two strings are equal, or exactly one of them stands before the other.
pub proof fn lemma_before_total(a: Seq<char>, b: Seq<char>)
    ensures
        a == b <==> !before(a, b) && !before(b, a),
        !(before(a, b) && before(b, a)),
    decreases a.len(),
{
    if a.len() > 0 && b.len() > 0 && a.first() == b.first() {
        lemma_before_total(a.drop_first(), b.drop_first());
        assert(a == seq![a.first()] + a.drop_first());
        assert(b == seq![b.first()] + b.drop_first());
    } else if a.len() == 0 && b.len() == 0 {
        assert(a == b);
    }
}

/// The order of strings is transitive.
pub proof fn lemma_before_transitive(a: Seq<char>, b: Seq<char>, c: Seq<char>)
    requires
        before(a, b),
        before(b, c),
    ensures
        before(a, c),
    decreases a.len(),
{
    if a.len() > 0 && b.len() > 0 && c.len() > 0 && a.first() == b.first() && b.first()
        == c.first() {
        lemma_before_transitive(a.drop_first(), b.drop_first(), c.drop_first());
    }
}

/// The value that stands under `key`.
pub open spec fn lookup(entries: Seq<(Seq<char>, JsonView)>, key: Seq<char>) -> Option<JsonView>
    decreases entries.len(),
{
    if entries.len() == 0 {
        None
    } else if entries[0].0 == key {
        Some(entries[0].1)
    } else {
        lookup(entries.drop_first(), key)
    }
}

/// The entries with `value` under `key`: in place of what stood there, or in the
/// place that the order of the keys gives it.
pub open spec fn with_entry(
    entries: Seq<(Seq<char>, JsonView)>,
    key: Seq<char>,
    value: JsonView,
) -> Seq<(Seq<char>, JsonView)>
    decreases entries.len(),
{
    if entries.len() == 0 {
        seq![(key, value)]
    } else if entries[0].0 == key {
        entries.update(0, (key, value))
    } else if before(key, entries[0].0) && lookup(entries, key) is None {
        seq![(key, value)] + entries
    } else {
        seq![entries[0]] + with_entry(entries.drop_first(), key, value)
    }
}

/// Reading back an entry gives what was put there, and no other entry changes.
pub proof fn law_entry_is_read_back(
    entries: Seq<(Seq<char>, JsonView)>,
    key: Seq<char>,
    value: JsonView,
    other: Seq<char>,
)
    ensures
        lookup(with_entry(entries, key, value), key) == Some(value),
        other != key ==> lookup(with_entry(entries, key, value), other) == lookup(entries, other),
    decreases entries.len(),
{
    let after = with_entry(entries, key, value);
    if entries.len() == 0 {
        assert(after.drop_first() == entries);
    } else if entries[0].0 == key {
        assert(after.drop_first() == entries.drop_first());
    } else if before(key, entries[0].0) && lookup(entries, key) is None {
        assert(after.drop_first() == entries);
    } else {
        law_entry_is_read_back(entries.drop_first(), key, value, other);
        assert(after.drop_first() == with_entry(entries.drop_first(), key, value));
    }
}

/// What is looked up stands in an entry with that key.
pub proof fn lemma_lookup_at(entries: Seq<(Seq<char>, JsonView)>, key: Seq<char>)
    ensures
        lookup(entries, key) is Some ==> exists|k: int|
            0 <= k < entries.len() && #[trigger] entries[k].0 == key && Some(entries[k].1)
                == lookup(entries, key),
        lookup(entries, key) is None ==> forall|k: int|
            0 <= k < entries.len() ==> #[trigger] entries[k].0 != key,
    decreases entries.len(),
{
    if entries.len() > 0 && entries[0].0 != key {
        let rest = entries.drop_first();
        lemma_lookup_at(rest, key);
        if lookup(entries, key) is Some {
            let k = choose|k: int|
                0 <= k < rest.len() && #[trigger] rest[k].0 == key && Some(rest[k].1) == lookup(
                    rest,
                    key,
                );
            assert(entries[k + 1].0 == key);
        } else {
            assert forall|k: int| 0 <= k < entries.len() implies #[trigger] entries[k].0
                != key by {
                if k > 0 {
                    assert(rest[k - 1].0 != key);
                }
            }
        }
    }
}

/// Replacing what stands under a key leaves the keys as they are.
pub proof fn lemma_replaced_entry(
    entries: Seq<(Seq<char>, JsonView)>,
    key: Seq<char>,
    value: JsonView,
)
    requires
        lookup(entries, key) is Some,
    ensures
        with_entry(entries, key, value).len() == entries.len(),
        forall|i: int|
            0 <= i < entries.len() ==> #[trigger] with_entry(entries, key, value)[i].0
                == entries[i].0,
    decreases entries.len(),
{
    if entries[0].0 != key {
        let rest = entries.drop_first();
        lemma_replaced_entry(rest, key, value);
        assert forall|i: int| 0 <= i < entries.len() implies #[trigger] with_entry(
            entries,
            key,
            value,
        )[i].0 == entries[i].0 by {
            if i > 0 {
                assert(with_entry(entries, key, value)[i] == with_entry(rest, key, value)[i - 1]);
                assert(rest[i - 1] == entries[i]);
            }
        }
    }
}

/// The keys strictly ascend.
pub open spec fn ascending(entries: Seq<(Seq<char>, JsonView)>) -> bool {
    forall|i: int, j: int|
        0 <= i < j < entries.len() ==> before(#[trigger] entries[i].0, #[trigger] entries[j].0)
}

/// An entry keeps the keys ascending, and brings no key but its own.
pub proof fn lemma_entry_keeps_order(
    entries: Seq<(Seq<char>, JsonView)>,
    key: Seq<char>,
    value: JsonView,
)
    requires
        ascending(entries),
    ensures
        ascending(with_entry(entries, key, value)),
        forall|i: int|
            0 <= i < with_entry(entries, key, value).len() ==> {
                ||| #[trigger] with_entry(entries, key, value)[i] == (key, value)
                ||| exists|j: int|
                    0 <= j < entries.len() && entries[j] == with_entry(entries, key, value)[i]
            },
    decreases entries.len(),
{
    let after = with_entry(entries, key, value);
    if entries.len() == 0 {
    } else if entries[0].0 == key {
        assert forall|i: int| 0 <= i < after.len() implies {
            ||| #[trigger] after[i] == (key, value)
            ||| exists|j: int| 0 <= j < entries.len() && entries[j] == after[i]
        } by {
            if i > 0 {
                assert(entries[i] == after[i]);
            }
        }
        assert forall|i: int, j: int| 0 <= i < j < after.len() implies before(
            #[trigger] after[i].0,
            #[trigger] after[j].0,
        ) by {
            assert(before(entries[i].0, entries[j].0));
        }
    } else if before(key, entries[0].0) && lookup(entries, key) is None {
        assert forall|i: int| 0 <= i < after.len() implies {
            ||| #[trigger] after[i] == (key, value)
            ||| exists|j: int| 0 <= j < entries.len() && entries[j] == after[i]
        } by {
            if i > 0 {
                assert(entries[i - 1] == after[i]);
            }
        }
        assert forall|i: int, j: int| 0 <= i < j < after.len() implies before(
            #[trigger] after[i].0,
            #[trigger] after[j].0,
        ) by {
            assert(after[j] == entries[j - 1]);
            if i == 0 {
                if j > 1 {
                    assert(before(entries[0].0, entries[j - 1].0));
                    lemma_before_transitive(key, entries[0].0, entries[j - 1].0);
                }
            } else {
                assert(after[i] == entries[i - 1]);
            }
        }
    } else {
        let rest = entries.drop_first();
        let inner = with_entry(rest, key, value);
        assert forall|i: int, j: int| 0 <= i < j < rest.len() implies before(
            #[trigger] rest[i].0,
            #[trigger] rest[j].0,
        ) by {
            assert(before(entries[i + 1].0, entries[j + 1].0));
        }
        lemma_entry_keeps_order(rest, key, value);
        lemma_before_total(key, entries[0].0);
        if before(key, entries[0].0) {
            lemma_lookup_at(entries, key);
            let k = choose|k: int|
                0 <= k < entries.len() && entries[k].0 == key && Some(entries[k].1) == lookup(
                    entries,
                    key,
                );
            assert(before(entries[0].0, entries[k].0));
        }
        assert forall|i: int| 0 <= i < after.len() implies {
            ||| #[trigger] after[i] == (key, value)
            ||| exists|j: int| 0 <= j < entries.len() && entries[j] == after[i]
        } by {
            if i == 0 {
                assert(entries[0] == after[0]);
            } else {
                assert(after[i] == inner[i - 1]);
                if inner[i - 1] != (key, value) {
                    let j = choose|j: int| 0 <= j < rest.len() && rest[j] == inner[i - 1];
                    assert(entries[j + 1] == after[i]);
                }
            }
        }
        assert forall|i: int, j: int| 0 <= i < j < after.len() implies before(
            #[trigger] after[i].0,
            #[trigger] after[j].0,
        ) by {
            assert(after[j] == inner[j - 1]);
            if i == 0 {
                if inner[j - 1] != (key, value) {
                    let k = choose|k: int| 0 <= k < rest.len() && rest[k] == inner[j - 1];
                    assert(entries[k + 1] == after[j]);
                    assert(before(entries[0].0, entries[k + 1].0));
                }
            } else {
                assert(after[i] == inner[i - 1]);
            }
        }
    }
}

impl JsonView {
    /// The value under `key`, where this is an object that has one.
    pub open spec fn field(self, key: Seq<char>) -> Option<JsonView> {
        match self {
            JsonView::Object(entries) => lookup(entries, key),
            _ => None,
        }
    }

    /// This object with `value` under `key`.
    pub open spec fn with_field(self, key: Seq<char>, value: JsonView) -> JsonView {
        match self {
            JsonView::Object(entries) => JsonView::Object(with_entry(entries, key, value)),
            _ => self,
        }
    }

    /// The keys of each object ascend, and each number stands in its variant.
    pub open spec fn wf(self) -> bool
        decreases self,
    {
        match self {
            JsonView::Number(n) => n.wf(),
            JsonView::Array(items) => forall|i: int|
                0 <= i < items.len() ==> (#[trigger] items[i]).wf(),
            JsonView::Object(entries) => ascending(entries) && forall|i: int|
                0 <= i < entries.len() ==> (#[trigger] entries[i]).1.wf(),
            _ => true,
        }
    }

    /// Arrays and objects nest at most `depth` deep.
    pub open spec fn depth_within(self, depth: nat) -> bool
        decreases self,
    {
        match self {
            JsonView::Array(items) => depth > 0 && forall|i: int|
                0 <= i < items.len() ==> (#[trigger] items[i]).depth_within((depth - 1) as nat),
            JsonView::Object(entries) => depth > 0 && forall|i: int|
                0 <= i < entries.len() ==> (#[trigger] entries[i]).1.depth_within(
                    (depth - 1) as nat,
                ),
            _ => true,
        }
    }

    /// Every number is an integer.
    pub open spec fn integral(self) -> bool
        decreases self,
    {
        match self {
            JsonView::Number(n) => n !is Float,
            JsonView::Array(items) => forall|i: int|
                0 <= i < items.len() ==> (#[trigger] items[i]).integral(),
            JsonView::Object(entries) => forall|i: int|
                0 <= i < entries.len() ==> (#[trigger] entries[i]).1.integral(),
            _ => true,
        }
    }

    /// The documents differ in the values of numbers that are no integers, and in nothing
    /// else.
    pub open spec fn alike(self, other: JsonView) -> bool
        decreases self,
    {
        match (self, other) {
            (JsonView::Number(JsonNumber::Float(_)), JsonView::Number(JsonNumber::Float(_))) => {
                true
            },
            (JsonView::Array(a), JsonView::Array(b)) => a.len() == b.len() && forall|i: int|
                0 <= i < a.len() ==> (#[trigger] a[i]).alike(b[i]),
            (JsonView::Object(a), JsonView::Object(b)) => a.len() == b.len() && forall|i: int|
                0 <= i < a.len() ==> (#[trigger] a[i]).0 == b[i].0 && a[i].1.alike(b[i].1),
            _ => self == other,
        }
    }

    /// The text, where this is one.
    pub open spec fn text(self) -> Option<Seq<char>> {
        match self {
            JsonView::Text(s) => Some(s),
            _ => None,
        }
    }

    /// The elements, where this is an array.
    pub open spec fn items(self) -> Option<Seq<JsonView>> {
        match self {
            JsonView::Array(items) => Some(items),
            _ => None,
        }
    }

    /// The entries, where this is an object.
    pub open spec fn entries(self) -> Option<Seq<(Seq<char>, JsonView)>> {
        match self {
            JsonView::Object(entries) => Some(entries),
            _ => None,
        }
    }
}

/// The elements of a well-formed array are well-formed.
pub proof fn lemma_item_wf(items: Seq<JsonView>, i: int)
    requires
        JsonView::Array(items).wf(),
        0 <= i < items.len(),
    ensures
        items[i].wf(),
{
    let array = JsonView::Array(items);
    assert(array.wf() && array->Array_0[i] == items[i]);
    assert(items[i].wf()) by {
        reveal_with_fuel(JsonView::wf, 2);
    }
}

/// The entries of a well-formed object are well-formed.
pub proof fn lemma_entry_wf(entries: Seq<(Seq<char>, JsonView)>, i: int)
    requires
        JsonView::Object(entries).wf(),
        0 <= i < entries.len(),
    ensures
        entries[i].1.wf(),
{
    reveal_with_fuel(JsonView::wf, 2);
    assert(entries[i].1.wf());
}

/// What stands in a field is well-formed and less deep.
pub proof fn lemma_field_keeps(document: JsonView, key: Seq<char>, depth: nat)
    requires
        document.wf(),
        document.depth_within(depth),
        document.field(key) is Some,
    ensures
        depth > 0,
        document.field(key)->0.wf(),
        document.field(key)->0.depth_within((depth - 1) as nat),
{
    let entries = document->Object_0;
    lemma_lookup_at(entries, key);
    let k = choose|k: int|
        0 <= k < entries.len() && #[trigger] entries[k].0 == key && Some(entries[k].1) == lookup(
            entries,
            key,
        );
    lemma_entry_wf(entries, k);
    assert(entries[k].1.depth_within((depth - 1) as nat)) by {
        reveal_with_fuel(JsonView::depth_within, 2);
    }
}

/// Putting a value into a field keeps an object well-formed and within its depth.
pub proof fn lemma_with_field_keeps(
    document: JsonView,
    key: Seq<char>,
    value: JsonView,
    depth: nat,
)
    requires
        document is Object,
        document.wf(),
        document.depth_within(depth),
        value.wf(),
        value.depth_within((depth - 1) as nat),
    ensures
        document.with_field(key, value).wf(),
        document.with_field(key, value).depth_within(depth),
{
    let entries = document->Object_0;
    let after = with_entry(entries, key, value);
    lemma_entry_keeps_order(entries, key, value);
    assert forall|i: int| 0 <= i < after.len() implies (#[trigger] after[i]).1.wf()
        && after[i].1.depth_within((depth - 1) as nat) by {
        if after[i] != (key, value) {
            let j = choose|j: int| 0 <= j < entries.len() && entries[j] == after[i];
            lemma_entry_wf(entries, j);
            assert(entries[j].1.depth_within((depth - 1) as nat)) by {
                reveal_with_fuel(JsonView::depth_within, 2);
            }
        }
    }
    let object = JsonView::Object(after);
    assert(object.wf()) by {
        reveal_with_fuel(JsonView::wf, 2);
    }
    assert(object.depth_within(depth)) by {
        reveal_with_fuel(JsonView::depth_within, 2);
    }
}

/// An entry of an object.
pub open spec fn entry_view(entry: (String, Json)) -> (Seq<char>, JsonView) {
    (entry.0@, entry.1@)
}

/// The entries of an object.
pub open spec fn entries_view(entries: Seq<(String, Json)>) -> Seq<(Seq<char>, JsonView)> {
    Seq::new(entries.len(), |i: int| entry_view(entries[i]))
}

/// The elements of an array.
pub open spec fn items_view(items: Seq<Json>) -> Seq<JsonView> {
    Seq::new(items.len(), |i: int| items[i]@)
}

pub broadcast proof fn lemma_object_view(entries: Vec<(String, Json)>)
    ensures
        #[trigger] Json::Object(entries)@ == JsonView::Object(entries_view(entries@)),
{
    reveal_with_fuel(<Json as View>::view, 2);
    let object = Json::Object(entries);
    assert(object@ is Object);
    let seen = object@->Object_0;
    assert(seen.len() == entries@.len());
    assert forall|i: int| 0 <= i < seen.len() implies #[trigger] seen[i] == entry_view(
        entries@[i],
    ) by {}
    assert(seen =~= entries_view(entries@));
}

pub broadcast proof fn lemma_array_view(items: Vec<Json>)
    ensures
        #[trigger] Json::Array(items)@ == JsonView::Array(items_view(items@)),
{
    reveal_with_fuel(<Json as View>::view, 2);
    let array = Json::Array(items);
    assert(array@ is Array);
    let seen = array@->Array_0;
    assert(seen.len() == items@.len());
    assert forall|i: int| 0 <= i < seen.len() implies #[trigger] seen[i] == items@[i]@ by {}
    assert(seen =~= items_view(items@));
}

impl Json {
    /// The text, where this is one.
    pub fn as_str(&self) -> (r: Option<&String>)
        ensures
            match r {
                Some(s) => self@.text() == Some(s@),
                None => self@.text() is None,
            },
    {
        match self {
            Json::Text(s) => Some(s),
            _ => None,
        }
    }

    /// The elements, where this is an array.
    pub fn as_array(&self) -> (r: Option<&Vec<Json>>)
        ensures
            match r {
                Some(items) => self@ == JsonView::Array(items_view(items@)),
                None => self@.items() is None,
            },
    {
        broadcast use lemma_array_view;

        match self {
            Json::Array(items) => Some(items),
            _ => None,
        }
    }

    /// The entries, where this is an object.
    pub fn as_object(&self) -> (r: Option<&Vec<(String, Json)>>)
        ensures
            match r {
                Some(entries) => self@ == JsonView::Object(entries_view(entries@)),
                None => self@.entries() is None,
            },
    {
        broadcast use lemma_object_view;

        match self {
            Json::Object(entries) => Some(entries),
            _ => None,
        }
    }

    /// The value under `key`, where this is an object that has one.
    pub fn get(&self, key: &str) -> (r: Option<&Json>)
        ensures
            match r {
                Some(value) => self@.field(key@) == Some(value@),
                None => self@.field(key@) is None,
            },
    {
        match self.as_object() {
            Some(entries) => find_entry(entries, key),
            None => None,
        }
    }
}

/// The value that stands under `key`.
pub fn find_entry<'a>(entries: &'a Vec<(String, Json)>, key: &str) -> (r: Option<&'a Json>)
    ensures
        match r {
            Some(value) => lookup(entries_view(entries@), key@) == Some(value@),
            None => lookup(entries_view(entries@), key@) is None,
        },
{
    let ghost all = entries_view(entries@);
    let mut i: usize = 0;
    assert(all.skip(0) == all);
    while i < entries.len()
        invariant
            i <= entries.len(),
            all == entries_view(entries@),
            lookup(all, key@) == lookup(all.skip(i as int), key@),
        decreases entries.len() - i,
    {
        if same(entries[i].0.as_str(), key) {
            assert(all.skip(i as int)[0] == entry_view(entries@[i as int]));
            return Some(&entries[i].1);
        }
        assert(all.skip(i as int).drop_first() == all.skip(i + 1));
        i += 1;
    }
    None
}

proof fn lemma_with_entry_present(
    entries: Seq<(Seq<char>, JsonView)>,
    key: Seq<char>,
    value: JsonView,
    at: int,
)
    requires
        0 <= at < entries.len(),
        entries[at].0 == key,
        forall|i: int| 0 <= i < at ==> #[trigger] entries[i].0 != key,
    ensures
        lookup(entries, key) == Some(entries[at].1),
        with_entry(entries, key, value) == entries.update(at, (key, value)),
    decreases entries.len(),
{
    if at > 0 {
        let rest = entries.drop_first();
        assert forall|i: int| 0 <= i < at - 1 implies #[trigger] rest[i].0 != key by {
            assert(rest[i] == entries[i + 1]);
        }
        assert(entries[0].0 != key);
        lemma_with_entry_present(rest, key, value, at - 1);
        assert(entries.update(at, (key, value)) == seq![entries[0]] + rest.update(
            at - 1,
            (key, value),
        ));
    }
}

proof fn lemma_with_entry_absent(
    entries: Seq<(Seq<char>, JsonView)>,
    key: Seq<char>,
    value: JsonView,
    at: int,
)
    requires
        0 <= at <= entries.len(),
        lookup(entries, key) is None,
        forall|i: int| 0 <= i < at ==> !before(key, #[trigger] entries[i].0),
        at < entries.len() ==> before(key, entries[at].0),
    ensures
        with_entry(entries, key, value) == entries.insert(at, (key, value)),
    decreases entries.len(),
{
    if at > 0 {
        let rest = entries.drop_first();
        assert forall|i: int| 0 <= i < at - 1 implies !before(key, #[trigger] rest[i].0) by {
            assert(rest[i] == entries[i + 1]);
        }
        assert(!before(key, entries[0].0));
        lemma_with_entry_absent(rest, key, value, at - 1);
        assert(entries.insert(at, (key, value)) == seq![entries[0]] + rest.insert(
            at - 1,
            (key, value),
        ));
    } else if entries.len() == 0 {
        assert(entries.insert(0, (key, value)) == seq![(key, value)]);
    } else {
        assert(entries.insert(0, (key, value)) == seq![(key, value)] + entries);
    }
}

/// The place of the entry under `key`.
pub fn find_place(entries: &Vec<(String, Json)>, key: &str) -> (r: Option<usize>)
    ensures
        match r {
            Some(at) => at < entries@.len() && entries@[at as int].0@ == key@ && lookup(
                entries_view(entries@),
                key@,
            ) == Some(entries@[at as int].1@) && forall|value: JsonView| #[trigger]
                with_entry(entries_view(entries@), key@, value) == entries_view(entries@).update(
                    at as int,
                    (key@, value),
                ),
            None => lookup(entries_view(entries@), key@) is None,
        },
{
    let ghost all = entries_view(entries@);
    let mut i: usize = 0;
    assert(all.skip(0) == all);
    while i < entries.len()
        invariant
            i <= entries.len(),
            all == entries_view(entries@),
            lookup(all, key@) == lookup(all.skip(i as int), key@),
            forall|k: int| 0 <= k < i ==> #[trigger] all[k].0 != key@,
        decreases entries.len() - i,
    {
        if same(entries[i].0.as_str(), key) {
            assert(all.skip(i as int)[0] == entry_view(entries@[i as int]));
            assert forall|value: JsonView| #[trigger]
                with_entry(all, key@, value) == all.update(i as int, (key@, value)) by {
                lemma_with_entry_present(all, key@, value, i as int);
            }
            return Some(i);
        }
        assert(all.skip(i as int).drop_first() == all.skip(i + 1));
        i += 1;
    }
    None
}

/// Puts `value` under `key`.
pub fn put_entry(entries: &mut Vec<(String, Json)>, key: &str, value: Json)
    ensures
        entries_view(final(entries)@) == with_entry(entries_view(old(entries)@), key@, value@),
{
    let ghost all = entries_view(entries@);
    let ghost before_call = entries@;
    let entry: (String, Json) = (key.to_owned(), value);
    match find_place(entries, key) {
        Some(at) => {
            entries.set(at, entry);
            assert(entries_view(entries@) == all.update(at as int, entry_view(entry)));
        },
        None => {
            let mut at: usize = 0;
            while at < entries.len() && !is_before(key, entries[at].0.as_str())
                invariant
                    at <= entries.len(),
                    entries@ == before_call,
                    all == entries_view(entries@),
                    forall|i: int| 0 <= i < at ==> !before(key@, #[trigger] all[i].0),
                decreases entries.len() - at,
            {
                at += 1;
            }
            proof {
                lemma_with_entry_absent(all, key@, value@, at as int);
            }
            entries.insert(at, entry);
            assert(entries_view(entries@) == all.insert(at as int, entry_view(entry)));
        },
    }
}

/// The entries put into an empty object one after the other.
pub open spec fn object_of(entries: Seq<(Seq<char>, JsonView)>) -> Seq<(Seq<char>, JsonView)>
    decreases entries.len(),
{
    if entries.len() == 0 {
        seq![]
    } else {
        with_entry(object_of(entries.drop_last()), entries.last().0, entries.last().1)
    }
}

impl Json {
    /// The object that holds the given entries; of two with one key, the later stays.
    pub fn object(entries: Vec<(String, Json)>) -> (r: Json)
        ensures
            r@ == JsonView::Object(object_of(entries_view(entries@))),
    {
        broadcast use lemma_object_view;

        let ghost all = entries_view(entries@);
        let mut out: Vec<(String, Json)> = Vec::new();
        let mut rest: Vec<(String, Json)> = entries;
        let ghost n = all.len() as int;
        assert(entries_view(out@) == object_of(all.take(0)));
        while rest.len() > 0
            invariant
                n == all.len(),
                rest@.len() <= n,
                forall|k: int|
                    0 <= k < rest@.len() ==> entry_view(#[trigger] rest@[k]) == all[n
                        - rest@.len() + k],
                entries_view(out@) == object_of(all.take(n - rest@.len())),
            decreases rest.len(),
        {
            let ghost done = n - rest@.len();
            assert(entry_view(rest@[0]) == all[done]);
            let (key, value): (String, Json) = rest.remove(0);
            put_entry(&mut out, key.as_str(), value);
            assert(all.take(done + 1).drop_last() == all.take(done));
            assert(all.take(done + 1).last() == all[done]);
        }
        assert(all.take(n) == all);
        Json::Object(out)
    }
}

impl Json {
    /// The value under `key`, to be changed.
    pub fn get_mut<'a>(&'a mut self, key: &str) -> (r: Option<&'a mut Json>)
        ensures
            match r {
                Some(value) => old(self)@.field(key@) == Some(value@) && final(self)@ == old(
                    self,
                )@.with_field(key@, final(value)@),
                None => old(self)@.field(key@) is None && final(self)@ == old(self)@,
            },
    {
        broadcast use lemma_object_view;

        match self {
            Json::Object(entries) => match find_place(entries, key) {
                Some(at) => {
                    let ghost all = entries_view(entries@);
                    let ghost last = final(entries)@;
                    let entry: &mut (String, Json) = &mut entries[at];
                    let value: &mut Json = &mut entry.1;
                    assert(entries_view(last) == all.update(at as int, (key@, final(value)@)));
                    Some(value)
                },
                None => None,
            },
            _ => None,
        }
    }

    /// Puts `value` under `key` of this object.
    pub fn put(&mut self, key: &str, value: Json)
        requires
            old(self)@ is Object,
        ensures
            final(self)@ == old(self)@.with_field(key@, value@),
    {
        broadcast use lemma_object_view;

        match self {
            Json::Object(entries) => {
                put_entry(entries, key, value);
            },
            _ => {},
        }
    }
}

} // verus!
