//! Lists in the order of texts.

use vstd::prelude::*;

use crate::text::{characters, same_text, texts};

verus! {

/// Whether a text does not come behind another: by the first character in
/// which they differ, and a beginning before what it begins.
pub open spec fn text_le(left: Seq<char>, right: Seq<char>) -> bool
    decreases left.len(),
{
    if left.len() == 0 {
        true
    } else if right.len() == 0 {
        false
    } else if left.first() != right.first() {
        left.first() < right.first()
    } else {
        text_le(left.drop_first(), right.drop_first())
    }
}

/// Whether a text does not come behind another.
pub fn not_behind(left: &str, right: &str) -> (result: bool)
    ensures
        result == text_le(left@, right@),
{
    let first = characters(left);
    let second = characters(right);
    let mut index: usize = 0;
    proof {
        assert(first@.skip(0) == left@);
        assert(second@.skip(0) == right@);
    }
    while index < first.len() && index < second.len()
        invariant
            first@ == left@,
            second@ == right@,
            index <= first@.len(),
            index <= second@.len(),
            text_le(left@, right@) == text_le(
                first@.skip(index as int),
                second@.skip(index as int),
            ),
        decreases first@.len() - index,
    {
        proof {
            assert(first@.skip(index as int).first() == first@[index as int]);
            assert(second@.skip(index as int).first() == second@[index as int]);
            assert(first@.skip(index as int).drop_first() == first@.skip(index + 1));
            assert(second@.skip(index as int).drop_first() == second@.skip(index + 1));
        }
        if first[index] != second[index] {
            return first[index] < second[index];
        }
        index = index + 1;
    }
    index == first.len()
}

/// Of two texts, one does not come behind the other, and only equal ones come
/// behind neither.
pub proof fn lemma_text_order(left: Seq<char>, right: Seq<char>)
    ensures
        text_le(left, right) || text_le(right, left),
        text_le(left, right) && text_le(right, left) ==> left == right,
        text_le(left, left),
    decreases left.len(),
{
    if left.len() > 0 {
        lemma_text_order(left.drop_first(), left.drop_first());
        if right.len() > 0 && left.first() == right.first() {
            lemma_text_order(left.drop_first(), right.drop_first());
            if left.drop_first() == right.drop_first() {
                assert(left =~= seq![left.first()] + left.drop_first());
                assert(right =~= seq![right.first()] + right.drop_first());
            }
        }
    } else if right.len() == 0 {
        assert(left =~= right);
    }
}

/// The order of texts carries over.
pub proof fn lemma_text_order_carries(left: Seq<char>, middle: Seq<char>, right: Seq<char>)
    requires
        text_le(left, middle),
        text_le(middle, right),
    ensures
        text_le(left, right),
    decreases left.len(),
{
    if left.len() > 0 && right.len() > 0 && middle.len() > 0 && left.first() == middle.first()
        && middle.first() == right.first() {
        lemma_text_order_carries(left.drop_first(), middle.drop_first(), right.drop_first());
    }
}

/// Items with the keys that they are ordered by.
pub open spec fn keyed(items: Seq<(String, String)>) -> Seq<(Seq<char>, Seq<char>)> {
    items.map_values(|item: (String, String)| (item.0@, item.1@))
}

/// Items with one more, behind those that it does not come before.
pub open spec fn placed(
    items: Seq<(Seq<char>, Seq<char>)>,
    item: (Seq<char>, Seq<char>),
) -> Seq<(Seq<char>, Seq<char>)>
    decreases items.len(),
{
    if items.len() == 0 || text_le(items.last().0, item.0) {
        items.push(item)
    } else {
        placed(items.drop_last(), item).push(items.last())
    }
}

/// Items in the order of their keys. Items of one key stay in their order.
pub open spec fn ordered(items: Seq<(Seq<char>, Seq<char>)>) -> Seq<(Seq<char>, Seq<char>)>
    decreases items.len(),
{
    if items.len() == 0 {
        Seq::empty()
    } else {
        placed(ordered(items.drop_last()), items.last())
    }
}

proof fn lemma_placed_at(
    items: Seq<(Seq<char>, Seq<char>)>,
    item: (Seq<char>, Seq<char>),
    position: int,
)
    requires
        0 <= position <= items.len(),
        position == 0 || text_le(items[position - 1].0, item.0),
        forall|i: int| position <= i < items.len() ==> !text_le((#[trigger] items[i]).0, item.0),
    ensures
        placed(items, item) == items.insert(position, item),
    decreases items.len(),
{
    if position == items.len() {
        assert(items.insert(position, item) =~= items.push(item));
    } else {
        let shorter = items.drop_last();
        assert(!text_le(items[items.len() - 1].0, item.0));
        assert forall|i: int| position <= i < shorter.len() implies !text_le(
            (#[trigger] shorter[i]).0,
            item.0,
        ) by {
            assert(shorter[i] == items[i]);
        }
        lemma_placed_at(shorter, item, position);
        assert(items.insert(position, item) =~= shorter.insert(position, item).push(items.last()));
    }
}

/// Items in the order of their keys. Items of one key stay in their order.
pub fn sort_by_key(items: &Vec<(String, String)>) -> (result: Vec<(String, String)>)
    ensures
        keyed(result@) == ordered(keyed(items@)),
{
    let mut result: Vec<(String, String)> = Vec::new();
    let ghost all = keyed(items@);
    let mut index: usize = 0;
    proof {
        assert(all.take(0) == Seq::<(Seq<char>, Seq<char>)>::empty());
        assert(keyed(result@) =~= Seq::<(Seq<char>, Seq<char>)>::empty());
    }
    while index < items.len()
        invariant
            index <= items@.len(),
            all == keyed(items@),
            keyed(result@) == ordered(all.take(index as int)),
        decreases items@.len() - index,
    {
        proof {
            let longer = all.take(index + 1);
            assert(longer.drop_last() == all.take(index as int));
            assert(longer.last() == all[index as int]);
        }
        let item = (items[index].0.clone(), items[index].1.clone());
        let ghost shown = keyed(result@);
        let mut position: usize = result.len();
        while position > 0 && !not_behind(result[position - 1].0.as_str(), item.0.as_str())
            invariant
                position <= result@.len(),
                shown == keyed(result@),
                forall|i: int|
                    position <= i < shown.len() ==> !text_le((#[trigger] shown[i]).0, item.0@),
            decreases position,
        {
            position = position - 1;
            proof {
                assert(shown[position as int].0 == result@[position as int].0@);
            }
        }
        proof {
            if position > 0 {
                assert(shown[position - 1].0 == result@[position - 1].0@);
            }
            lemma_placed_at(shown, (item.0@, item.1@), position as int);
        }
        result.insert(position, item);
        proof {
            assert(keyed(result@) =~= shown.insert(position as int, (item.0@, item.1@)));
        }
        index = index + 1;
    }
    proof {
        assert(all.take(index as int) == all);
    }
    result
}

/// Whether items are in the order of their keys.
pub open spec fn in_order(items: Seq<(Seq<char>, Seq<char>)>) -> bool {
    forall|i: int, j: int|
        0 <= i <= j < items.len() ==> text_le((#[trigger] items[i]).0, (#[trigger] items[j]).0)
}

proof fn lemma_placed_in_order(
    items: Seq<(Seq<char>, Seq<char>)>,
    item: (Seq<char>, Seq<char>),
)
    requires
        in_order(items),
    ensures
        in_order(placed(items, item)),
        placed(items, item).to_multiset() == items.to_multiset().insert(item),
        placed(items, item).len() == items.len() + 1,
        forall|i: int|
            0 <= i < placed(items, item).len() ==> #[trigger] placed(items, item)[i] == item
                || items.contains(placed(items, item)[i]),
    decreases items.len(),
{
    broadcast use vstd::seq_lib::group_to_multiset_ensures;

    let after = placed(items, item);
    lemma_text_order(item.0, item.0);
    if items.len() == 0 || text_le(items.last().0, item.0) {
        assert forall|i: int, j: int| 0 <= i <= j < after.len() implies text_le(
            (#[trigger] after[i]).0,
            (#[trigger] after[j]).0,
        ) by {
            if j == items.len() && i < items.len() {
                assert(text_le(items[i].0, items[items.len() - 1].0));
                lemma_text_order_carries(items[i].0, items.last().0, item.0);
            }
        }
        assert forall|i: int| 0 <= i < after.len() implies #[trigger] after[i] == item
            || items.contains(after[i]) by {
            if i < items.len() {
                assert(after[i] == items[i]);
            }
        }
    } else {
        let shorter = items.drop_last();
        let last = items.last();
        assert(in_order(shorter)) by {
            assert forall|i: int, j: int| 0 <= i <= j < shorter.len() implies text_le(
                (#[trigger] shorter[i]).0,
                (#[trigger] shorter[j]).0,
            ) by {
                assert(shorter[i] == items[i] && shorter[j] == items[j]);
            }
        }
        lemma_placed_in_order(shorter, item);
        lemma_text_order(last.0, item.0);
        lemma_text_order(last.0, last.0);
        let before = placed(shorter, item);
        assert(items =~= shorter.push(last));
        assert(after.to_multiset() =~= items.to_multiset().insert(item));
        assert forall|i: int, j: int| 0 <= i <= j < after.len() implies text_le(
            (#[trigger] after[i]).0,
            (#[trigger] after[j]).0,
        ) by {
            if j == before.len() && i < before.len() {
                assert(before[i] == after[i]);
                if before[i] != item {
                    assert(shorter.contains(before[i]));
                    let at = choose|at: int| 0 <= at < shorter.len() && shorter[at] == before[i];
                    assert(items[at] == before[i]);
                    assert(text_le(items[at].0, items[items.len() - 1].0));
                }
            } else if j < before.len() {
                assert(before[i] == after[i] && before[j] == after[j]);
            }
        }
        assert forall|i: int| 0 <= i < after.len() implies #[trigger] after[i] == item
            || items.contains(after[i]) by {
            if i < before.len() {
                assert(before[i] == after[i]);
                if before[i] != item {
                    let at = choose|at: int| 0 <= at < shorter.len() && shorter[at] == before[i];
                    assert(items[at] == before[i]);
                }
            } else {
                assert(items[items.len() - 1] == last);
            }
        }
    }
}

/// Ordering keeps the items and puts each behind those whose keys come before
/// its own.
pub proof fn law_order_is_kept(items: Seq<(Seq<char>, Seq<char>)>)
    ensures
        in_order(ordered(items)),
        ordered(items).to_multiset() == items.to_multiset(),
        ordered(items).len() == items.len(),
    decreases items.len(),
{
    broadcast use vstd::seq_lib::group_to_multiset_ensures;

    if items.len() > 0 {
        law_order_is_kept(items.drop_last());
        lemma_placed_in_order(ordered(items.drop_last()), items.last());
        assert(items =~= items.drop_last().push(items.last()));
    }
}

/// Whether texts are in their order, each once.
pub open spec fn strictly_ordered(list: Seq<Seq<char>>) -> bool {
    forall|i: int, j: int|
        0 <= i < j < list.len() ==> text_le(#[trigger] list[i], #[trigger] list[j]) && list[i]
            != list[j]
}

/// Texts in their order, each once.
pub fn sort_unique(list: &Vec<String>) -> (result: Vec<String>)
    ensures
        strictly_ordered(texts(result@)),
        forall|text: Seq<char>|
            texts(result@).contains(text) == #[trigger] texts(list@).contains(text),
{
    let mut items: Vec<(String, String)> = Vec::new();
    let ghost all = texts(list@);
    let ghost doubled = all.map_values(|text: Seq<char>| (text, text));
    let mut index: usize = 0;
    while index < list.len()
        invariant
            index <= list@.len(),
            all == texts(list@),
            doubled == all.map_values(|text: Seq<char>| (text, text)),
            keyed(items@) == doubled.take(index as int),
        decreases list@.len() - index,
    {
        let ghost before = keyed(items@);
        let text = list[index].as_str();
        items.push((text.to_owned(), text.to_owned()));
        proof {
            assert(keyed(items@) =~= before.push((text@, text@)));
            assert(doubled.take(index + 1) =~= doubled.take(index as int).push((text@, text@)));
        }
        index = index + 1;
    }
    proof {
        assert(doubled.take(index as int) == doubled);
    }
    let sorted = sort_by_key(&items);
    let ghost shown = keyed(sorted@);
    proof {
        law_order_is_kept(doubled);
        lemma_same_items(doubled, shown);
    }
    let mut result: Vec<String> = Vec::new();
    index = 0;
    while index < sorted.len()
        invariant
            index <= sorted@.len(),
            shown == keyed(sorted@),
            in_order(shown),
            strictly_ordered(texts(result@)),
            forall|i: int|
                0 <= i < index ==> texts(result@).contains((#[trigger] shown[i]).0),
            forall|i: int|
                0 <= i < result@.len() ==> exists|j: int|
                    0 <= j < index && (#[trigger] shown[j]).0 == (#[trigger] texts(result@)[i]),
            result@.len() > 0 ==> index > 0 && texts(result@).last() == shown[index - 1].0,
            result@.len() == 0 ==> index == 0,
        decreases sorted@.len() - index,
    {
        let text = sorted[index].0.as_str();
        let ghost before = texts(result@);
        proof {
            assert(shown[index as int].0 == text@);
        }
        let count: usize = result.len();
        let repeated = count > 0 && same_text(result[count - 1].as_str(), text);
        proof {
            if count > 0 {
                assert(before.last() == result@[count - 1]@);
            }
        }
        if repeated {
            proof {
                assert(before[before.len() - 1] == text@);
                assert(before.contains(text@));
            }
        } else {
            result.push(text.to_owned());
            proof {
                let after = texts(result@);
                assert(after =~= before.push(text@));
                assert forall|i: int, j: int| 0 <= i < j < after.len() implies text_le(
                    #[trigger] after[i],
                    #[trigger] after[j],
                ) && after[i] != after[j] by {
                    if j < before.len() {
                        assert(after[i] == before[i] && after[j] == before[j]);
                    } else {
                        assert(after[i] == before[i]);
                        lemma_in_between(before, shown, index as int, i);
                        lemma_text_order(before[i], text@);
                    }
                }
                assert forall|i: int| 0 <= i < index + 1 implies after.contains(
                    (#[trigger] shown[i]).0,
                ) by {
                    if i < index {
                        let at = choose|at: int| 0 <= at < before.len() && before[at] == shown[i].0;
                        assert(after[at] == shown[i].0);
                    } else {
                        assert(after.last() == text@);
                    }
                }
                assert forall|i: int| 0 <= i < result@.len() implies exists|j: int|
                    0 <= j < index + 1 && (#[trigger] shown[j]).0 == (#[trigger] after[i]) by {
                    if i < before.len() {
                        assert(after[i] == before[i]);
                        let j = choose|j: int| 0 <= j < index && (#[trigger] shown[j]).0 == before[i];
                        assert(shown[j].0 == after[i]);
                    } else {
                        assert(shown[index as int].0 == after[i]);
                    }
                }
            }
        }
        index = index + 1;
    }
    proof {
        let after = texts(result@);
        assert forall|text: Seq<char>| after.contains(text) == #[trigger] all.contains(text) by {
            if after.contains(text) {
                let i = choose|i: int| 0 <= i < after.len() && after[i] == text;
                let j = choose|j: int|
                    0 <= j < shown.len() && (#[trigger] shown[j]).0 == (#[trigger] after[i]);
                assert(shown.contains(shown[j]));
                assert(doubled.contains(shown[j]));
                let k = choose|k: int| 0 <= k < doubled.len() && doubled[k] == shown[j];
                assert(all[k] == text);
            }
            if all.contains(text) {
                let k = choose|k: int| 0 <= k < all.len() && all[k] == text;
                assert(doubled[k] == (text, text));
                assert(doubled.contains(doubled[k]));
                assert(shown.contains(doubled[k]));
                let j = choose|j: int| 0 <= j < shown.len() && shown[j] == doubled[k];
                assert(after.contains(shown[j].0));
            }
        }
    }
    result
}

proof fn lemma_same_items(
    left: Seq<(Seq<char>, Seq<char>)>,
    right: Seq<(Seq<char>, Seq<char>)>,
)
    requires
        left.to_multiset() == right.to_multiset(),
    ensures
        forall|item: (Seq<char>, Seq<char>)| left.contains(item) == #[trigger] right.contains(item),
{
    broadcast use vstd::seq_lib::group_to_multiset_ensures;

    assert forall|item: (Seq<char>, Seq<char>)|
        left.contains(item) == #[trigger] right.contains(item) by {
        assert(left.contains(item) <==> left.to_multiset().count(item) > 0);
        assert(right.contains(item) <==> right.to_multiset().count(item) > 0);
    }
}

/// What was taken from ordered items before one of them does not come behind
/// it, and differs from it where the last one does.
proof fn lemma_in_between(
    taken: Seq<Seq<char>>,
    items: Seq<(Seq<char>, Seq<char>)>,
    index: int,
    at: int,
)
    requires
        in_order(items),
        strictly_ordered(taken),
        0 <= index < items.len(),
        0 <= at < taken.len(),
        exists|j: int| 0 <= j < index && (#[trigger] items[j]).0 == taken[at],
        index > 0,
        taken.last() == items[index - 1].0,
        taken.last() != items[index].0,
    ensures
        text_le(taken[at], items[index].0),
        taken[at] != items[index].0,
{
    let j = choose|j: int| 0 <= j < index && (#[trigger] items[j]).0 == taken[at];
    assert(text_le(items[j].0, items[index].0));
    if taken[at] == items[index].0 {
        assert(text_le(items[index - 1].0, items[index].0));
        assert(text_le(items[j].0, items[index - 1].0));
        lemma_text_order(items[index - 1].0, items[index].0);
    }
}

/// Texts stand in the order of their first different characters, and a text stands before
/// those that it begins.
pub proof fn law_texts_stand_in_alphabetical_order(
    common: Seq<char>,
    left: char,
    right: char,
    rest: Seq<char>,
    other: Seq<char>,
)
    ensures
        left < right ==> text_le(common + seq![left] + rest, common + seq![right] + other)
            && !text_le(common + seq![right] + other, common + seq![left] + rest),
        text_le(common, common + rest),
        rest.len() > 0 ==> !text_le(common + rest, common),
    decreases common.len(),
{
    let one = common + seq![left] + rest;
    let two = common + seq![right] + other;
    let longer = common + rest;
    if common.len() == 0 {
        assert(one.first() == left && two.first() == right);
    } else {
        let shorter = common.drop_first();
        law_texts_stand_in_alphabetical_order(shorter, left, right, rest, other);
        assert(one.first() == common.first() && two.first() == common.first() && longer.first()
            == common.first());
        assert(one.drop_first() =~= shorter + seq![left] + rest);
        assert(two.drop_first() =~= shorter + seq![right] + other);
        assert(longer.drop_first() =~= shorter + rest);
    }
}

/// What stands in order already stays as it is, so that items of one key keep their
/// order.
pub proof fn law_ordered_items_stay(items: Seq<(Seq<char>, Seq<char>)>)
    requires
        in_order(items),
    ensures
        ordered(items) == items,
    decreases items.len(),
{
    if items.len() > 0 {
        let shorter = items.drop_last();
        assert forall|i: int, j: int| 0 <= i <= j < shorter.len() implies text_le(
            (#[trigger] shorter[i]).0,
            (#[trigger] shorter[j]).0,
        ) by {
            assert(shorter[i] == items[i] && shorter[j] == items[j]);
        }
        law_ordered_items_stay(shorter);
        if shorter.len() > 0 {
            assert(shorter.last() == items[items.len() - 2]);
            assert(items.last() == items[items.len() - 1]);
            assert(text_le(items[items.len() - 2].0, items[items.len() - 1].0));
        }
        assert(shorter.push(items.last()) =~= items);
    } else {
        assert(ordered(items) =~= items);
    }
}

} // verus!
