//! Laws of the JSON documents.
use crate::json::{
    ascending, before, law_entry_is_read_back, lemma_entry_keeps_order, lookup, object_of, JsonView,
};
use vstd::prelude::*;

verus! {

/// What stands under a key is the value of the first entry that has it.
pub proof fn law_lookup(
    front: Seq<(Seq<char>, JsonView)>,
    key: Seq<char>,
    value: JsonView,
    behind: Seq<(Seq<char>, JsonView)>,
)
    requires
        forall|i: int| 0 <= i < front.len() ==> #[trigger] front[i].0 != key,
    ensures
        lookup(front + seq![(key, value)] + behind, key) == Some(value),
        lookup(front, key) is None,
    decreases front.len(),
{
    let all = front + seq![(key, value)] + behind;
    if front.len() > 0 {
        let rest = front.drop_first();
        assert(front[0].0 != key);
        assert forall|i: int| 0 <= i < rest.len() implies #[trigger] rest[i].0 != key by {
            assert(rest[i] == front[i + 1]);
        }
        law_lookup(rest, key, value, behind);
        assert(all[0] == front[0]);
        assert(all.drop_first() == rest + seq![(key, value)] + behind);
    } else {
        assert(all[0] == (key, value));
    }
}

/// Keys are ordered by the first character in which they differ, and one that ends where
/// the other goes on comes first.
pub proof fn law_order(common: Seq<char>, a: char, more: Seq<char>, b: char, other: Seq<char>)
    ensures
        a < b ==> before(common + seq![a] + more, common + seq![b] + other) && !before(
            common + seq![b] + other,
            common + seq![a] + more,
        ),
        before(common, common + seq![a] + more),
        !before(common + seq![a] + more, common),
        !before(common, common),
    decreases common.len(),
{
    let x = common + seq![a] + more;
    let y = common + seq![b] + other;
    if common.len() > 0 {
        let rest = common.drop_first();
        law_order(rest, a, more, b, other);
        assert(x.drop_first() == rest + seq![a] + more);
        assert(y.drop_first() == rest + seq![b] + other);
        assert(x.first() == common.first() && y.first() == common.first());
    } else {
        assert(x.first() == a && y.first() == b);
    }
}

/// An object has fields, and nothing else does.
pub proof fn law_fields(entries: Seq<(Seq<char>, JsonView)>, other: JsonView, key: Seq<char>)
    ensures
        JsonView::Object(entries).field(key) == lookup(entries, key),
        other !is Object ==> other.field(key) is None,
{
}

/// An object that is built from entries has under each key what came last for it, and has
/// its keys in order.
pub proof fn law_built_objects(
    entries: Seq<(Seq<char>, JsonView)>,
    key: Seq<char>,
    value: JsonView,
    other: Seq<char>,
)
    ensures
        lookup(object_of(entries.push((key, value))), key) == Some(value),
        other != key ==> lookup(object_of(entries.push((key, value))), other) == lookup(
            object_of(entries),
            other,
        ),
        object_of(seq![]).len() == 0,
        forall|i: int, k: int|
            0 <= i < k < object_of(entries).len() ==> before(
                #[trigger] object_of(entries)[i].0,
                #[trigger] object_of(entries)[k].0,
            ),
    decreases entries.len(),
{
    let all = entries.push((key, value));
    assert(all.drop_last() == entries);
    law_entry_is_read_back(object_of(entries), key, value, other);
    if entries.len() > 0 {
        let last = entries.last();
        law_built_objects(entries.drop_last(), last.0, last.1, other);
        assert(ascending(object_of(entries.drop_last())));
        lemma_entry_keeps_order(object_of(entries.drop_last()), last.0, last.1);
    }
}

} // verus!
