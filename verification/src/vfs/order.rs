//! The order in which siblings are shown: by name, and among equal names by
//! the order in which they were added.
//!
//! Names are ordered as strings are: letter by letter, by code point, a
//! name coming before every longer name that starts with it.

use vstd::prelude::*;
use vstd::string::StrSliceExecFns;

verus! {

/// Whether `first` comes strictly before `second`.
pub open spec fn before(first: Seq<char>, second: Seq<char>) -> bool
    decreases first.len(),
{
    if second.len() == 0 {
        false
    } else if first.len() == 0 {
        true
    } else if first[0] == second[0] {
        before(first.drop_first(), second.drop_first())
    } else {
        (first[0] as u32) < (second[0] as u32)
    }
}

/// Of two names, at most one comes before the other.
pub proof fn lemma_before_asymmetric(first: Seq<char>, second: Seq<char>)
    requires
        before(first, second),
    ensures
        !before(second, first),
    decreases first.len(),
{
    if first.len() > 0 && second.len() > 0 && first[0] == second[0] {
        lemma_before_asymmetric(first.drop_first(), second.drop_first());
    }
}

/// A name that comes before a second, which comes before a third, comes
/// before the third.
pub proof fn lemma_before_transitive(first: Seq<char>, second: Seq<char>, third: Seq<char>)
    requires
        before(first, second),
        before(second, third),
    ensures
        before(first, third),
    decreases first.len(),
{
    if first.len() > 0 && second.len() > 0 && third.len() > 0 && first[0] == second[0] && second[0]
        == third[0] {
        lemma_before_transitive(first.drop_first(), second.drop_first(), third.drop_first());
    }
}

/// Two names of which neither comes before the other are the same name.
pub proof fn lemma_before_total(first: Seq<char>, second: Seq<char>)
    requires
        !before(first, second),
        !before(second, first),
    ensures
        first == second,
    decreases first.len(),
{
    if first.len() > 0 && second.len() > 0 {
        assert(first[0] == second[0]) by {
            vstd::utf8::char_u32_cast(first[0], first[0] as u32);
            vstd::utf8::char_u32_cast(second[0], second[0] as u32);
        }
        lemma_before_total(first.drop_first(), second.drop_first());
        assert(first =~= seq![first[0]] + first.drop_first());
        assert(second =~= seq![second[0]] + second.drop_first());
    } else {
        assert(first =~= second);
    }
}

/// `before`, computed.
pub fn name_before(first: &str, second: &str) -> (yes: bool)
    ensures
        yes == before(first@, second@),
{
    let first_len = first.unicode_len();
    let second_len = second.unicode_len();
    let mut at: usize = 0;
    proof {
        assert(first@.skip(0) =~= first@);
        assert(second@.skip(0) =~= second@);
    }
    while at < first_len && at < second_len
        invariant
            at <= first_len,
            at <= second_len,
            first_len == first@.len(),
            second_len == second@.len(),
            before(first@, second@) == before(first@.skip(at as int), second@.skip(at as int)),
        decreases first_len - at,
    {
        let left = first.get_char(at);
        let right = second.get_char(at);
        proof {
            assert(first@.skip(at as int)[0] == left);
            assert(second@.skip(at as int)[0] == right);
            assert(first@.skip(at as int).drop_first() =~= first@.skip(at + 1));
            assert(second@.skip(at as int).drop_first() =~= second@.skip(at + 1));
        }
        if left != right {
            return (left as u32) < (right as u32);
        }
        at += 1;
    }
    proof {
        assert(first@.skip(at as int).len() == first_len - at);
        assert(second@.skip(at as int).len() == second_len - at);
    }
    at < second_len
}

/// The name of node `id`, where `names` holds the name of every node.
pub open spec fn name_of(names: Seq<Seq<char>>, id: usize) -> Seq<char> {
    if id < names.len() {
        names[id as int]
    } else {
        Seq::empty()
    }
}

/// Where a node called `name` goes in `order`, looking from `from` on: in
/// front of the first node whose name comes after it, or at the end.
pub open spec fn place(order: Seq<usize>, names: Seq<Seq<char>>, name: Seq<char>, from: int) -> int
    decreases order.len() - from,
{
    if from < 0 || from >= order.len() {
        order.len() as int
    } else if before(name, name_of(names, order[from])) {
        from
    } else {
        place(order, names, name, from + 1)
    }
}

/// `order` with `id` put in its place.
pub open spec fn inserted(order: Seq<usize>, names: Seq<Seq<char>>, id: usize) -> Seq<usize> {
    order.insert(place(order, names, name_of(names, id), 0), id)
}

/// The nodes `ids` in the order in which they are shown.
pub open spec fn display_order(ids: Seq<usize>, names: Seq<Seq<char>>) -> Seq<usize>
    decreases ids.len(),
{
    if ids.len() == 0 {
        Seq::empty()
    } else {
        inserted(display_order(ids.drop_last(), names), names, ids.last())
    }
}

/// No node is shown after one whose name comes after its own.
pub open spec fn in_order(order: Seq<usize>, names: Seq<Seq<char>>) -> bool {
    forall|i: int, j: int|
        0 <= i < j < order.len() ==> !before(
            name_of(names, #[trigger] order[j]),
            name_of(names, #[trigger] order[i]),
        )
}

/// What `place` finds lies in range; nothing in front of it has a name
/// that comes after `name`, and what stands there has.
pub proof fn lemma_place(order: Seq<usize>, names: Seq<Seq<char>>, name: Seq<char>, from: int)
    requires
        0 <= from <= order.len(),
    ensures
        from <= place(order, names, name, from) <= order.len(),
        forall|k: int|
            from <= k < place(order, names, name, from) ==> !before(
                name,
                name_of(names, #[trigger] order[k]),
            ),
        place(order, names, name, from) < order.len() ==> before(
            name,
            name_of(names, order[place(order, names, name, from)]),
        ),
    decreases order.len() - from,
{
    if from < order.len() && !before(name, name_of(names, order[from])) {
        lemma_place(order, names, name, from + 1);
    }
}

/// Putting a node in its place keeps an ordered sequence ordered, and adds
/// that node and nothing else.
pub proof fn lemma_inserted(order: Seq<usize>, names: Seq<Seq<char>>, id: usize)
    requires
        in_order(order, names),
    ensures
        in_order(inserted(order, names, id), names),
        inserted(order, names, id).to_multiset() == order.to_multiset().insert(id),
        inserted(order, names, id).len() == order.len() + 1,
{
    let name = name_of(names, id);
    let at = place(order, names, name, 0);
    let out = inserted(order, names, id);
    lemma_place(order, names, name, 0);
    assert forall|i: int, j: int| 0 <= i < j < out.len() implies !before(
        name_of(names, #[trigger] out[j]),
        name_of(names, #[trigger] out[i]),
    ) by {
        if j < at {
            assert(out[i] == order[i] && out[j] == order[j]);
        } else if j == at {
            assert(out[i] == order[i] && out[j] == id);
        } else if i == at {
            assert(out[i] == id && out[j] == order[j - 1]);
            let later = name_of(names, order[j - 1]);
            let there = name_of(names, order[at]);
            if before(later, name) {
                lemma_before_transitive(later, name, there);
                if j - 1 == at {
                    lemma_before_asymmetric(name, there);
                } else {
                    assert(!before(name_of(names, order[j - 1]), name_of(names, order[at])));
                }
            }
        } else if i < at {
            assert(out[i] == order[i] && out[j] == order[j - 1]);
        } else {
            assert(out[i] == order[i - 1] && out[j] == order[j - 1]);
        }
    }
    assert(out.remove(at) =~= order);
    assert(out[at] == id);
    vstd::seq_lib::to_multiset_remove(out, at);
    out.to_multiset_ensures();
    assert(out.to_multiset() =~= order.to_multiset().insert(id));
}

/// Siblings are shown sorted by name, and each of them once.
pub proof fn lemma_display_order(ids: Seq<usize>, names: Seq<Seq<char>>)
    ensures
        in_order(display_order(ids, names), names),
        display_order(ids, names).to_multiset() == ids.to_multiset(),
        display_order(ids, names).len() == ids.len(),
    decreases ids.len(),
{
    if ids.len() == 0 {
        assert(ids =~= Seq::empty());
    } else {
        let rest = ids.drop_last();
        lemma_display_order(rest, names);
        lemma_inserted(display_order(rest, names), names, ids.last());
        assert(ids =~= rest.push(ids.last()));
        vstd::seq_lib::to_multiset_build(rest, ids.last());
    }
}

/// Among siblings, one that was added earlier is shown earlier, unless the
/// name of the later one comes before its own: equal names keep the order
/// in which they were added.
pub proof fn lemma_display_order_stable(
    ids: Seq<usize>,
    names: Seq<Seq<char>>,
    earlier: int,
    later: int,
)
    requires
        0 <= earlier < later < ids.len(),
        !before(name_of(names, ids[later]), name_of(names, ids[earlier])),
    ensures
        exists|first: int, second: int|
            0 <= first < second < display_order(ids, names).len() && #[trigger] display_order(
                ids,
                names,
            )[first] == ids[earlier] && #[trigger] display_order(ids, names)[second] == ids[later],
    decreases ids.len(),
{
    let rest = ids.drop_last();
    let shown = display_order(rest, names);
    let out = display_order(ids, names);
    let name = name_of(names, ids.last());
    let at = place(shown, names, name, 0);
    lemma_display_order(rest, names);
    lemma_place(shown, names, name, 0);
    assert(out == shown.insert(at, ids.last()));
    if later < ids.len() - 1 {
        assert(rest[earlier] == ids[earlier] && rest[later] == ids[later]);
        lemma_display_order_stable(rest, names, earlier, later);
        let (first, second) = choose|first: int, second: int|
            0 <= first < second < shown.len() && #[trigger] shown[first] == rest[earlier]
                && #[trigger] shown[second] == rest[later];
        let moved_first = if first < at {
            first
        } else {
            first + 1
        };
        let moved_second = if second < at {
            second
        } else {
            second + 1
        };
        assert(out[moved_first] == ids[earlier] && out[moved_second] == ids[later]);
    } else {
        assert(rest[earlier] == ids[earlier]);
        assert(rest.contains(ids[earlier]));
        rest.to_multiset_ensures();
        shown.to_multiset_ensures();
        assert(rest.to_multiset().count(ids[earlier]) > 0);
        assert(shown.to_multiset().count(ids[earlier]) > 0);
        assert(shown.contains(ids[earlier]));
        let first = choose|first: int| 0 <= first < shown.len() && shown[first] == ids[earlier];
        if first >= at {
            let there = name_of(names, shown[at]);
            let own = name_of(names, shown[first]);
            if first > at {
                assert(!before(own, there));
                if before(there, own) {
                    lemma_before_transitive(name, there, own);
                } else {
                    lemma_before_total(there, own);
                }
            }
            assert(before(name, own));
        }
        assert(out[first] == ids[earlier] && out[at] == ids[later]);
    }
}

/// The names that a list of strings spells.
pub open spec fn spelled(names: Seq<String>) -> Seq<Seq<char>> {
    names.map_values(|name: String| name@)
}

/// The nodes `ids` in the order in which they are shown, where `names`
/// holds the name of every node.
pub fn sorted_by_name(ids: &Vec<usize>, names: &Vec<String>) -> (order: Vec<usize>)
    requires
        forall|i: int| 0 <= i < ids@.len() ==> ids@[i] < names@.len(),
    ensures
        order@ == display_order(ids@, spelled(names@)),
{
    let mut order: Vec<usize> = Vec::new();
    let mut next: usize = 0;
    while next < ids.len()
        invariant
            next <= ids.len(),
            forall|i: int| 0 <= i < ids@.len() ==> ids@[i] < names@.len(),
            order@ == display_order(ids@.take(next as int), spelled(names@)),
            forall|k: int| 0 <= k < order@.len() ==> order@[k] < names@.len(),
        decreases ids.len() - next,
    {
        let id = ids[next];
        let mut at: usize = 0;
        while at < order.len() && !name_before(names[id].as_str(), names[order[at]].as_str())
            invariant
                at <= order.len(),
                id < names@.len(),
                forall|k: int| 0 <= k < order@.len() ==> order@[k] < names@.len(),
                place(order@, spelled(names@), name_of(spelled(names@), id), 0) == place(
                    order@,
                    spelled(names@),
                    name_of(spelled(names@), id),
                    at as int,
                ),
            decreases order.len() - at,
        {
            at += 1;
        }
        proof {
            assert(ids@.take(next + 1).drop_last() =~= ids@.take(next as int));
            assert(ids@.take(next + 1).last() == id);
            lemma_display_order(ids@.take(next as int), spelled(names@));
        }
        order.insert(at, id);
        next += 1;
        proof {
            assert forall|k: int| 0 <= k < order@.len() implies order@[k] < names@.len() by {
                if k < at {
                } else if k == at {
                } else {
                }
            }
        }
    }
    proof {
        assert(ids@.take(next as int) =~= ids@);
    }
    order
}

} // verus!
