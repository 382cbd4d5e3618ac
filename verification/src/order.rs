//! The order in which pending work is shown, and what holds of it.

use vstd::prelude::*;
use vstd::seq_lib::*;
use crate::due::{CivilInstant, DueDateTime};
use crate::todo::{instant_of, views, Todo, TodoView};

verus! {

/// Whether an entry due at `a` is listed strictly ahead of one due at `b`:
/// an entry without a due instant goes ahead of every entry with one, and of
/// two instants the later goes ahead.
pub open spec fn listed_ahead(a: Option<CivilInstant>, b: Option<CivilInstant>) -> bool {
    match (a, b) {
        (None, Some(_)) => true,
        (Some(x), Some(y)) => x.later_than(y),
        _ => false,
    }
}

/// How many entries at the head of `list` are listed strictly ahead of an
/// entry due at `due`.
pub open spec fn lead(list: Seq<TodoView>, due: Option<CivilInstant>) -> nat
    decreases list.len(),
{
    if list.len() == 0 || !listed_ahead(list[0].due, due) {
        0
    } else {
        1 + lead(list.drop_first(), due)
    }
}

/// The list in the order it is shown in: entries without a due instant
/// first, then from the latest instant to the earliest. Entries that tie keep
/// the order they came in.
pub open spec fn sort_by_due(list: Seq<TodoView>) -> Seq<TodoView>
    decreases list.len(),
{
    if list.len() == 0 {
        list
    } else {
        let rest = sort_by_due(list.drop_first());
        rest.insert(lead(rest, list[0].due) as int, list[0])
    }
}

/// Whether an entry due at `a` is listed strictly ahead of one due at `b`.
pub fn is_listed_ahead(a: &Option<DueDateTime>, b: &Option<DueDateTime>) -> (ahead: bool)
    ensures
        ahead == listed_ahead(instant_of(*a), instant_of(*b)),
{
    match b {
        None => false,
        Some(y) => match a {
            None => true,
            Some(x) => x.is_after(y),
        },
    }
}

/// `lead` counts exactly the entries up to the first that is not ahead.
proof fn lemma_lead_at(list: Seq<TodoView>, due: Option<CivilInstant>, at: int)
    requires
        0 <= at <= list.len(),
        forall|k: int| 0 <= k < at ==> listed_ahead(#[trigger] list[k].due, due),
        at < list.len() ==> !listed_ahead(list[at].due, due),
    ensures
        lead(list, due) == at,
    decreases at,
{
    if at > 0 {
        let rest = list.drop_first();
        assert(listed_ahead(list[0].due, due));
        assert forall|k: int| 0 <= k < at - 1 implies listed_ahead(#[trigger] rest[k].due, due) by {
            assert(rest[k] == list[k + 1]);
        }
        lemma_lead_at(rest, due, at - 1);
    }
}

/// Puts the list in the order it is shown in: entries without a due instant
/// first, then from the latest instant to the earliest, ties in the order
/// they came in.
pub fn sort_todos(todos: Vec<Todo>) -> (sorted: Vec<Todo>)
    ensures
        views(sorted@) == sort_by_due(views(todos@)),
{
    let ghost input = views(todos@);
    let mut rest = todos;
    let mut sorted: Vec<Todo> = Vec::new();
    assert(input.subrange(rest@.len() as int, input.len() as int) == Seq::<TodoView>::empty());
    assert(views(sorted@) == Seq::<TodoView>::empty());
    while rest.len() > 0
        invariant
            rest@.len() <= input.len(),
            views(rest@) == input.subrange(0, rest@.len() as int),
            views(sorted@) == sort_by_due(input.subrange(rest@.len() as int, input.len() as int)),
        decreases rest@.len(),
    {
        let ghost before = rest@;
        let ghost placed = views(sorted@);
        let item = rest.pop().unwrap();
        let ghost from = rest@.len() as int;
        let ghost tail = input.subrange(from, input.len() as int);
        proof {
            assert(item@ == views(before)[from]);
            assert(tail[0] == item@);
            assert(tail.drop_first() == input.subrange(from + 1, input.len() as int));
            assert(views(rest@) == input.subrange(0, from));
        }
        let mut at: usize = 0;
        while at < sorted.len() && is_listed_ahead(&sorted[at].due, &item.due)
            invariant
                at <= sorted@.len(),
                forall|k: int|
                    0 <= k < at ==> listed_ahead(#[trigger] views(sorted@)[k].due, item@.due),
            decreases sorted@.len() - at,
        {
            at += 1;
        }
        proof {
            lemma_lead_at(placed, item@.due, at as int);
        }
        sorted.insert(at, item);
        assert(views(sorted@) == placed.insert(at as int, item@));
    }
    assert(input.subrange(0, input.len() as int) == input);
    sorted
}

/// Everything at the head of `list` that `lead` counts is ahead of `due`, and
/// the entry after it, if there is one, is not.
proof fn lemma_lead_bounds(list: Seq<TodoView>, due: Option<CivilInstant>)
    ensures
        lead(list, due) <= list.len(),
        forall|k: int| 0 <= k < lead(list, due) ==> listed_ahead(#[trigger] list[k].due, due),
        lead(list, due) < list.len() ==> !listed_ahead(list[lead(list, due) as int].due, due),
    decreases list.len(),
{
    if list.len() == 0 || !listed_ahead(list[0].due, due) {
    } else {
        let rest = list.drop_first();
        lemma_lead_bounds(rest, due);
        assert forall|k: int| 0 <= k < lead(list, due) implies listed_ahead(
            #[trigger] list[k].due,
            due,
        ) by {
            if k > 0 {
                assert(list[k] == rest[k - 1]);
            }
        }
        if lead(list, due) < list.len() {
            assert(list[lead(list, due) as int] == rest[lead(rest, due) as int]);
        }
    }
}

/// Whether no entry of `list` stands behind one that it is listed ahead of.
pub open spec fn in_shown_order(list: Seq<TodoView>) -> bool {
    forall|i: int, j: int|
        0 <= i < j < list.len() ==> !listed_ahead(#[trigger] list[j].due, #[trigger] list[i].due)
}

/// Sorting keeps every entry, each as often as it occurred.
pub proof fn lemma_sort_keeps_entries(list: Seq<TodoView>)
    ensures
        sort_by_due(list).len() == list.len(),
        sort_by_due(list).to_multiset() == list.to_multiset(),
    decreases list.len(),
{
    if list.len() > 0 {
        let rest = sort_by_due(list.drop_first());
        lemma_sort_keeps_entries(list.drop_first());
        lemma_lead_bounds(rest, list[0].due);
        to_multiset_insert(rest, lead(rest, list[0].due) as int, list[0]);
        to_multiset_insert(list.drop_first(), 0, list[0]);
        assert(list.drop_first().insert(0, list[0]) == list);
    }
}

/// A sorted list is in the order it is shown in: entries without a due
/// instant first, then later instants ahead of earlier ones.
pub proof fn lemma_sort_orders(list: Seq<TodoView>)
    ensures
        in_shown_order(sort_by_due(list)),
    decreases list.len(),
{
    if list.len() > 0 {
        let first = list[0];
        let rest = sort_by_due(list.drop_first());
        let at = lead(rest, first.due) as int;
        let sorted = rest.insert(at, first);
        lemma_sort_orders(list.drop_first());
        lemma_lead_bounds(rest, first.due);
        assert forall|i: int, j: int| 0 <= i < j < sorted.len() implies !listed_ahead(
            #[trigger] sorted[j].due,
            #[trigger] sorted[i].due,
        ) by {
            if j < at {
                assert(sorted[i] == rest[i] && sorted[j] == rest[j]);
            } else if j == at {
                assert(sorted[i] == rest[i]);
                assert(listed_ahead(rest[i].due, first.due));
            } else if i == at {
                assert(sorted[j] == rest[j - 1]);
                assert(!listed_ahead(rest[at].due, first.due));
                if j - 1 > at {
                    assert(!listed_ahead(rest[j - 1].due, rest[at].due));
                }
            } else if i < at {
                assert(sorted[i] == rest[i] && sorted[j] == rest[j - 1]);
            } else {
                assert(sorted[i] == rest[i - 1] && sorted[j] == rest[j - 1]);
            }
        }
    }
}

/// Sorting is stable: the entries that share a due instant, or share having
/// none, stand in the order they came in.
pub proof fn lemma_sort_is_stable(list: Seq<TodoView>, due: Option<CivilInstant>)
    ensures
        sort_by_due(list).filter(|t: TodoView| t.due == due) == list.filter(
            |t: TodoView| t.due == due,
        ),
    decreases list.len(),
{
    let same = |t: TodoView| t.due == due;
    if list.len() > 0 {
        let first = list[0];
        let tail = list.drop_first();
        let rest = sort_by_due(tail);
        let at = lead(rest, first.due) as int;
        lemma_sort_is_stable(tail, due);
        lemma_lead_bounds(rest, first.due);
        let head = rest.subrange(0, at);
        let back = rest.subrange(at, rest.len() as int);
        assert(rest == head + back);
        assert(rest.insert(at, first) == head + (seq![first] + back));
        assert(list == seq![first] + tail);
        Seq::filter_distributes_over_add(head, back, same);
        Seq::filter_distributes_over_add(head, seq![first] + back, same);
        back.lemma_filter_prepend(first, same);
        tail.lemma_filter_prepend(first, same);
        if same(first) {
            assert(head.all(|t: TodoView| !same(t))) by {
                assert forall|k: int| 0 <= k < head.len() implies !same(#[trigger] head[k]) by {
                    assert(head[k] == rest[k]);
                    assert(listed_ahead(rest[k].due, first.due));
                }
            }
            head.lemma_all_neg_filter_empty(same);
            assert(head.filter(same) == Seq::<TodoView>::empty());
            assert(rest.insert(at, first).filter(same) == seq![first] + back.filter(same));
            assert(rest.filter(same) == back.filter(same));
        } else {
            assert(Seq::<TodoView>::empty() + back.filter(same) == back.filter(same));
            assert(Seq::<TodoView>::empty() + tail.filter(same) == tail.filter(same));
        }
    }
}

} // verus!
