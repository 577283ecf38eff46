//! The order in which tasks are listed: open tasks first, then by name.

use crate::encoding::{bytes_le, lemma_utf8_keeps_order};
use crate::task::{Task, TaskView};
use vstd::prelude::*;
use vstd::seq_lib::to_multiset_build;
use vstd::set_lib::{lemma_int_range, lemma_subset_equality, set_int_range};
use vstd::utf8::char_u32_cast;

verus! {

/// Lexicographic order on character strings: `a` is a prefix of `b`, or `a`
/// holds the character with the smaller code point where the two first
/// differ.
pub open spec fn chars_le(a: Seq<char>, b: Seq<char>) -> bool
    decreases a.len(),
{
    if a.len() == 0 {
        true
    } else if b.len() == 0 {
        false
    } else if a[0] == b[0] {
        chars_le(a.drop_first(), b.drop_first())
    } else {
        (a[0] as u32) < (b[0] as u32)
    }
}

/// Of any two strings one is below or equal to the other.
pub proof fn lemma_chars_le_total(a: Seq<char>, b: Seq<char>)
    ensures
        chars_le(a, b) || chars_le(b, a),
    decreases a.len(),
{
    if a.len() > 0 && b.len() > 0 {
        if a[0] == b[0] {
            lemma_chars_le_total(a.drop_first(), b.drop_first());
        } else {
            char_u32_cast(a[0], a[0] as u32);
            char_u32_cast(b[0], b[0] as u32);
        }
    }
}

/// The order on strings is transitive.
pub proof fn lemma_chars_le_transitive(a: Seq<char>, b: Seq<char>, c: Seq<char>)
    requires
        chars_le(a, b),
        chars_le(b, c),
    ensures
        chars_le(a, c),
    decreases a.len(),
{
    if a.len() > 0 && b.len() > 0 && c.len() > 0 && a[0] == b[0] && b[0] == c[0] {
        lemma_chars_le_transitive(a.drop_first(), b.drop_first(), c.drop_first());
    }
}

/// Two strings that are each below or equal to the other are the same.
pub proof fn lemma_chars_le_antisymmetric(a: Seq<char>, b: Seq<char>)
    requires
        chars_le(a, b),
        chars_le(b, a),
    ensures
        a == b,
    decreases a.len(),
{
    if a.len() == 0 {
        assert(a =~= b);
    } else {
        lemma_chars_le_antisymmetric(a.drop_first(), b.drop_first());
        assert(a =~= seq![a[0]] + a.drop_first());
        assert(b =~= seq![b[0]] + b.drop_first());
    }
}

/// Whether a task with content `a` may stand before one with content `b` in
/// a listing: an open task before a done one, and among tasks in the same
/// state the one whose name is not the greater.
pub open spec fn key_le(a: TaskView, b: TaskView) -> bool {
    if a.done == b.done {
        chars_le(a.name, b.name)
    } else {
        !a.done
    }
}

/// Of any two tasks one may stand before the other.
pub proof fn lemma_key_le_total(a: TaskView, b: TaskView)
    ensures
        key_le(a, b) || key_le(b, a),
{
    lemma_chars_le_total(a.name, b.name);
}

/// The listing order is transitive.
pub proof fn lemma_key_le_transitive(a: TaskView, b: TaskView, c: TaskView)
    requires
        key_le(a, b),
        key_le(b, c),
    ensures
        key_le(a, c),
{
    if a.done == b.done && b.done == c.done {
        lemma_chars_le_transitive(a.name, b.name, c.name);
    }
}

/// Two tasks that may each stand before the other have the same state and
/// the same name.
pub proof fn lemma_key_tie_is_same_key(a: TaskView, b: TaskView)
    requires
        key_le(a, b),
        key_le(b, a),
    ensures
        a.done == b.done,
        a.name == b.name,
{
    lemma_chars_le_antisymmetric(a.name, b.name);
}

/// Whether `a` is below or equal to `b`. The strings are compared byte by
/// byte, as Rust compares them.
pub fn name_le(a: &str, b: &str) -> (le: bool)
    ensures
        le == chars_le(a@, b@),
{
    let x = a.as_bytes();
    let y = b.as_bytes();
    let mut i: usize = 0;
    proof {
        lemma_utf8_keeps_order(a@, b@);
        assert(x@.skip(0) =~= x@ && y@.skip(0) =~= y@);
    }
    while i < x.len() && i < y.len()
        invariant
            bytes_le(x@, y@) == chars_le(a@, b@),
            i <= x@.len(),
            i <= y@.len(),
            bytes_le(x@, y@) == bytes_le(x@.skip(i as int), y@.skip(i as int)),
        decreases x@.len() - i,
    {
        assert(x@.skip(i as int)[0] == x@[i as int] && y@.skip(i as int)[0] == y@[i as int]);
        if x[i] != y[i] {
            return x[i] < y[i];
        }
        proof {
            assert(x@.skip(i as int).drop_first() =~= x@.skip(i + 1));
            assert(y@.skip(i as int).drop_first() =~= y@.skip(i + 1));
        }
        i += 1;
    }
    x.len() <= y.len()
}

/// Whether `a` may stand before `b` in a listing.
pub fn task_le(a: &Task, b: &Task) -> (le: bool)
    ensures
        le == key_le(a@, b@),
{
    if a.done == b.done {
        name_le(a.name.as_str(), b.name.as_str())
    } else {
        !a.done
    }
}

/// Whether the task at position `a` of `tasks` is listed before the one at
/// position `b`: its key is smaller, or the keys tie and it came first.
pub open spec fn goes_before(tasks: Seq<TaskView>, a: int, b: int) -> bool {
    if key_le(tasks[b], tasks[a]) {
        key_le(tasks[a], tasks[b]) && a < b
    } else {
        true
    }
}

/// Whether `order` names the positions of `tasks` in the order in which a
/// listing shows them: as many positions as there are tasks, ascending by
/// key, and ties in the order in which they came. Such an order names every
/// position, and none twice ([`lemma_listing_order_covers`]).
pub open spec fn is_listing_order(order: Seq<int>, tasks: Seq<TaskView>) -> bool {
    &&& order.len() == tasks.len()
    &&& forall|i: int| 0 <= i < order.len() ==> 0 <= #[trigger] order[i] < tasks.len()
    &&& forall|i: int, j: int|
        0 <= i < j < order.len() ==> goes_before(tasks, #[trigger] order[i], #[trigger] order[j])
}

/// The tasks of `tasks` at the positions that `order` names.
pub open spec fn arranged(tasks: Seq<TaskView>, order: Seq<int>) -> Seq<TaskView> {
    order.map_values(|at: int| tasks[at])
}

/// Whether `listed` is `tasks` put into listing order.
pub open spec fn is_listing_of(listed: Seq<TaskView>, tasks: Seq<TaskView>) -> bool {
    exists|order: Seq<int>| #[trigger]
        is_listing_order(order, tasks) && listed == arranged(tasks, order)
}

/// Two different positions of `tasks` never go before each other both ways,
/// and no position goes before itself.
pub proof fn lemma_goes_before_asymmetric(tasks: Seq<TaskView>, a: int, b: int)
    ensures
        !(goes_before(tasks, a, b) && goes_before(tasks, b, a)),
{
    lemma_key_le_total(tasks[a], tasks[b]);
}

/// A listing order names every position of the tasks, and none twice.
pub proof fn lemma_listing_order_covers(order: Seq<int>, tasks: Seq<TaskView>, at: int)
    requires
        is_listing_order(order, tasks),
        0 <= at < tasks.len(),
    ensures
        order.contains(at),
        order.no_duplicates(),
{
    assert forall|i: int, j: int| 0 <= i < order.len() && 0 <= j < order.len() && i != j implies order[i]
        != order[j] by {
        lemma_goes_before_asymmetric(tasks, order[i], order[j]);
    }
    order.unique_seq_to_set();
    let positions = set_int_range(0, tasks.len() as int);
    lemma_int_range(0, tasks.len() as int);
    assert(order.to_set().subset_of(positions)) by {
        assert forall|x: int| order.to_set().contains(x) implies positions.contains(x) by {
            let i = choose|i: int| 0 <= i < order.len() && order[i] == x;
            assert(0 <= order[i] < tasks.len());
        }
    }
    lemma_subset_equality(order.to_set(), positions);
    assert(order.to_set().contains(at));
}

/// Two listing orders of the same tasks agree at every index.
proof fn lemma_listing_orders_agree(p: Seq<int>, q: Seq<int>, tasks: Seq<TaskView>, k: int)
    requires
        is_listing_order(p, tasks),
        is_listing_order(q, tasks),
        0 <= k < tasks.len(),
    ensures
        p[k] == q[k],
    decreases k,
{
    assert forall|j: int| 0 <= j < k implies p[j] == q[j] by {
        lemma_listing_orders_agree(p, q, tasks, j);
    }
    if p[k] != q[k] {
        lemma_listing_order_covers(q, tasks, p[k]);
        lemma_listing_order_covers(p, tasks, q[k]);
        let in_q = choose|i: int| 0 <= i < q.len() && q[i] == p[k];
        let in_p = choose|i: int| 0 <= i < p.len() && p[i] == q[k];
        if in_q < k {
            assert(goes_before(tasks, p[in_q], p[k]));
            lemma_goes_before_asymmetric(tasks, p[k], p[k]);
        }
        if in_p < k {
            assert(goes_before(tasks, q[in_p], q[k]));
            lemma_goes_before_asymmetric(tasks, q[k], q[k]);
        }
        assert(goes_before(tasks, q[k], q[in_q]));
        assert(goes_before(tasks, p[k], p[in_p]));
        lemma_goes_before_asymmetric(tasks, p[k], q[k]);
    }
}

/// The tasks decide their listing: two listings of the same tasks are the
/// same sequence.
pub proof fn lemma_listing_is_unique(
    first: Seq<TaskView>,
    second: Seq<TaskView>,
    tasks: Seq<TaskView>,
)
    requires
        is_listing_of(first, tasks),
        is_listing_of(second, tasks),
    ensures
        first == second,
{
    let p = choose|order: Seq<int>| #[trigger]
        is_listing_order(order, tasks) && first == arranged(tasks, order);
    let q = choose|order: Seq<int>| #[trigger]
        is_listing_order(order, tasks) && second == arranged(tasks, order);
    assert forall|k: int| 0 <= k < p.len() implies p[k] == q[k] by {
        lemma_listing_orders_agree(p, q, tasks, k);
    }
    assert(p =~= q);
}

/// A listing ascends: open tasks come before done ones, and names ascend
/// within each group.
pub proof fn lemma_listing_is_sorted(listed: Seq<TaskView>, tasks: Seq<TaskView>)
    requires
        is_listing_of(listed, tasks),
    ensures
        forall|i: int, j: int|
            0 <= i < j < listed.len() ==> key_le(#[trigger] listed[i], #[trigger] listed[j]),
        forall|i: int, j: int|
            0 <= i < j < listed.len() && (#[trigger] listed[i]).done ==> (#[trigger] listed[j]).done,
        forall|i: int, j: int|
            0 <= i < j < listed.len() && (#[trigger] listed[i]).done == (#[trigger] listed[j]).done
                ==> chars_le(listed[i].name, listed[j].name),
{
    let order = choose|order: Seq<int>| #[trigger]
        is_listing_order(order, tasks) && listed == arranged(tasks, order);
    assert forall|i: int, j: int| 0 <= i < j < listed.len() implies key_le(
        #[trigger] listed[i],
        #[trigger] listed[j],
    ) by {
        assert(goes_before(tasks, order[i], order[j]));
        lemma_key_le_total(listed[i], listed[j]);
    }
}

/// Tasks picked from `tasks` at positions that name every position once
/// are the same tasks, each as often as before.
proof fn lemma_arranged_is_permutation(tasks: Seq<TaskView>, order: Seq<int>)
    requires
        order.len() == tasks.len(),
        forall|i: int| 0 <= i < order.len() ==> 0 <= #[trigger] order[i] < tasks.len(),
        forall|i: int, j: int| 0 <= i < j < order.len() ==> order[i] != order[j],
    ensures
        arranged(tasks, order).to_multiset() == tasks.to_multiset(),
    decreases order.len(),
{
    if order.len() == 0 {
        assert(arranged(tasks, order) =~= tasks);
    } else {
        let taken: int = order.last();
        let others = tasks.remove(taken);
        let shifted = Seq::new(
            (order.len() - 1) as nat,
            |k: int| if order[k] > taken { order[k] - 1 } else { order[k] },
        );
        assert forall|i: int| 0 <= i < shifted.len() implies 0 <= #[trigger] shifted[i]
            < others.len() by {
            assert(order[i] != order[order.len() - 1]);
        }
        lemma_arranged_is_permutation(others, shifted);
        let listed = arranged(tasks, order);
        assert(arranged(others, shifted) =~= listed.drop_last());
        assert(listed =~= listed.drop_last().push(tasks[taken]));
        to_multiset_build(listed.drop_last(), tasks[taken]);
        tasks.to_multiset_ensures();
        assert(listed.to_multiset() =~= tasks.to_multiset());
    }
}

/// A listing holds the tasks it was made of, each as often as it came.
pub proof fn lemma_listing_is_permutation(listed: Seq<TaskView>, tasks: Seq<TaskView>)
    requires
        is_listing_of(listed, tasks),
    ensures
        listed.to_multiset() == tasks.to_multiset(),
{
    let order = choose|order: Seq<int>| #[trigger]
        is_listing_order(order, tasks) && listed == arranged(tasks, order);
    assert forall|i: int, j: int| 0 <= i < j < order.len() implies order[i] != order[j] by {
        lemma_goes_before_asymmetric(tasks, order[i], order[j]);
    }
    lemma_arranged_is_permutation(tasks, order);
}

/// Puts tasks into the order of a listing: open tasks before done ones, and
/// within each group ascending by name. Tasks with the same state and name
/// keep the order in which they came.
pub fn sort_tasks(tasks: Vec<Task>) -> (sorted: Vec<Task>)
    ensures
        is_listing_of(sorted.deep_view(), tasks.deep_view()),
{
    let ghost input = tasks.deep_view();
    let ghost mut order: Seq<int> = Seq::empty();
    let mut rest = tasks;
    let mut sorted: Vec<Task> = Vec::new();
    while rest.len() > 0
        invariant
            rest.len() + sorted.len() == input.len(),
            order.len() == sorted.len(),
            forall|i: int| 0 <= i < rest.len() ==> (#[trigger] rest@[i])@ == input[i],
            forall|i: int| 0 <= i < order.len() ==> rest.len() <= #[trigger] order[i] < input.len(),
            forall|i: int| 0 <= i < order.len() ==> (#[trigger] sorted@[i])@ == input[order[i]],
            forall|i: int, j: int|
                0 <= i < j < order.len() ==> goes_before(
                    input,
                    #[trigger] order[i],
                    #[trigger] order[j],
                ),
        decreases rest.len(),
    {
        let task = rest.pop().unwrap();
        let ghost from: int = rest.len() as int;
        let mut at: usize = 0;
        while at < sorted.len() && !task_le(&task, &sorted[at])
            invariant
                at <= sorted.len(),
                forall|i: int| 0 <= i < at ==> !key_le(task@, (#[trigger] sorted@[i])@),
            decreases sorted.len() - at,
        {
            at += 1;
        }
        proof {
            let new_order = order.insert(at as int, from);
            assert forall|i: int, j: int| 0 <= i < j < new_order.len() implies goes_before(
                input,
                #[trigger] new_order[i],
                #[trigger] new_order[j],
            ) by {
                if j == at {
                    assert(!key_le(task@, sorted@[i]@));
                } else if i == at {
                    let first = sorted@[at as int]@;
                    let other = sorted@[j - 1]@;
                    assert(key_le(task@, first));
                    assert(j - 1 > at ==> goes_before(input, order[at as int], order[j - 1]));
                    lemma_key_le_total(first, other);
                    lemma_key_le_transitive(task@, first, other);
                } else {
                    let i0: int = if i < at { i } else { i - 1 };
                    let j0: int = if j < at { j } else { j - 1 };
                    assert(goes_before(input, order[i0], order[j0]));
                }
            }
            order = new_order;
        }
        sorted.insert(at, task);
    }
    proof {
        assert(is_listing_order(order, input));
        assert(sorted.deep_view() =~= arranged(input, order));
    }
    sorted
}

} // verus!
