//! Picking the members of a sequence that satisfy a condition and turning each
//! of them into something else, in order.

use vstd::prelude::*;

verus! {

/// The members of `items` that satisfy `keep`, each turned by `make`, in order.
pub open spec fn select<A, B>(
    items: Seq<A>,
    keep: spec_fn(A) -> bool,
    make: spec_fn(A) -> B,
) -> Seq<B> {
    items.filter(keep).map_values(make)
}

/// How a selection from a prefix grows with the prefix.
pub proof fn select_step<A, B>(
    items: Seq<A>,
    keep: spec_fn(A) -> bool,
    make: spec_fn(A) -> B,
    i: int,
)
    requires
        0 <= i < items.len(),
    ensures
        select(items.take(i + 1), keep, make) == (if keep(items[i]) {
            select(items.take(i), keep, make).push(make(items[i]))
        } else {
            select(items.take(i), keep, make)
        }),
{
    reveal(Seq::filter);
    assert(items.take(i + 1).drop_last() =~= items.take(i));
    assert(items.take(i + 1).last() == items[i]);
    assert(select(items.take(i + 1), keep, make) =~= (if keep(items[i]) {
        select(items.take(i), keep, make).push(make(items[i]))
    } else {
        select(items.take(i), keep, make)
    }));
}

/// A selection from the whole prefix is a selection from the sequence, and one
/// from no prefix is empty.
pub proof fn select_ends<A, B>(items: Seq<A>, keep: spec_fn(A) -> bool, make: spec_fn(A) -> B)
    ensures
        select(items.take(items.len() as int), keep, make) == select(items, keep, make),
        select(items.take(0), keep, make) == Seq::<B>::empty(),
{
    reveal(Seq::filter);
    assert(items.take(items.len() as int) =~= items);
    assert(select(items.take(0), keep, make) =~= Seq::<B>::empty());
}

/// `made` comes from a member of `items` that satisfies `keep`.
pub open spec fn made_from<A, B>(
    items: Seq<A>,
    keep: spec_fn(A) -> bool,
    make: spec_fn(A) -> B,
    made: B,
) -> bool {
    exists|i: int| 0 <= i < items.len() && keep(#[trigger] items[i]) && made == make(items[i])
}

/// A selection holds exactly what comes from a kept member of the sequence.
pub proof fn select_members<A, B>(
    items: Seq<A>,
    keep: spec_fn(A) -> bool,
    make: spec_fn(A) -> B,
)
    ensures
        forall|made: B|
            #![trigger select(items, keep, make).contains(made)]
            #![trigger made_from(items, keep, make, made)]
            select(items, keep, make).contains(made) <==> made_from(items, keep, make, made),
        select(items, keep, make).len() <= items.len(),
    decreases items.len(),
{
    if items.len() == 0 {
        reveal(Seq::filter);
    } else {
        let shorter = items.drop_last();
        select_members(shorter, keep, make);
        let last = items.len() - 1;
        select_step(items, keep, make, last);
        assert(items.take(last) =~= shorter);
        assert(items.take(last + 1) =~= items);
        let earlier = select(shorter, keep, make);
        let all = select(items, keep, make);
        assert forall|made: B| all.contains(made) implies made_from(items, keep, make, made) by {
            let k = choose|k: int| 0 <= k < all.len() && all[k] == made;
            if k < earlier.len() {
                assert(earlier[k] == made);
                assert(earlier.contains(made));
                assert(made_from(shorter, keep, make, made));
                let i = choose|i: int|
                    0 <= i < shorter.len() && keep(#[trigger] shorter[i]) && made == make(
                        shorter[i],
                    );
                assert(items[i] == shorter[i]);
            } else {
                assert(made == make(items[last]));
            }
        }
        assert forall|made: B| made_from(items, keep, make, made) implies all.contains(made) by {
            let i = choose|i: int|
                0 <= i < items.len() && keep(#[trigger] items[i]) && made == make(items[i]);
            if i < last {
                assert(items[i] == shorter[i]);
                assert(made_from(shorter, keep, make, made));
                let k = choose|k: int| 0 <= k < earlier.len() && earlier[k] == made;
                assert(all[k] == made);
            } else {
                assert(all[all.len() - 1] == made);
            }
        }
    }
}

/// What comes from a kept member of the sequence is selected.
pub proof fn select_holds<A, B>(
    items: Seq<A>,
    keep: spec_fn(A) -> bool,
    make: spec_fn(A) -> B,
    i: int,
)
    requires
        0 <= i < items.len(),
        keep(items[i]),
    ensures
        select(items, keep, make).contains(make(items[i])),
{
    select_members(items, keep, make);
    assert(made_from(items, keep, make, make(items[i])));
}

/// What is selected comes from a kept member of the sequence.
pub proof fn select_origin<A, B>(
    items: Seq<A>,
    keep: spec_fn(A) -> bool,
    make: spec_fn(A) -> B,
    k: int,
) -> (i: int)
    requires
        0 <= k < select(items, keep, make).len(),
    ensures
        0 <= i < items.len(),
        keep(items[i]),
        select(items, keep, make)[k] == make(items[i]),
{
    let made = select(items, keep, make)[k];
    select_members(items, keep, make);
    assert(select(items, keep, make).contains(made));
    assert(made_from(items, keep, make, made));
    choose|i: int| 0 <= i < items.len() && keep(#[trigger] items[i]) && made == make(items[i])
}

/// What is kept and what is left make up the whole.
pub proof fn select_counts<A, B, C>(
    items: Seq<A>,
    keep: spec_fn(A) -> bool,
    make: spec_fn(A) -> B,
    leave: spec_fn(A) -> bool,
    make_left: spec_fn(A) -> C,
)
    requires
        forall|item: A| #[trigger] leave(item) == !keep(item),
    ensures
        select(items, keep, make).len() + select(items, leave, make_left).len() == items.len(),
    decreases items.len(),
{
    if items.len() == 0 {
        reveal(Seq::filter);
    } else {
        let last = items.len() - 1;
        select_counts(items.drop_last(), keep, make, leave, make_left);
        assert(items.take(last) =~= items.drop_last());
        assert(items.take(last + 1) =~= items);
        select_step(items, keep, make, last);
        select_step(items, leave, make_left, last);
        assert(leave(items[last]) == !keep(items[last]));
    }
}

/// A concatenation holds what one of its parts holds.
pub proof fn concatenation_holds<A>(a: Seq<A>, b: Seq<A>, x: A)
    ensures
        (a + b).contains(x) <==> a.contains(x) || b.contains(x),
{
    if a.contains(x) {
        let i = choose|i: int| 0 <= i < a.len() && a[i] == x;
        assert((a + b)[i] == x);
    }
    if b.contains(x) {
        let i = choose|i: int| 0 <= i < b.len() && b[i] == x;
        assert((a + b)[a.len() + i] == x);
    }
    if (a + b).contains(x) {
        let i = choose|i: int| 0 <= i < (a + b).len() && (a + b)[i] == x;
        if i >= a.len() {
            assert(b[i - a.len()] == x);
        } else {
            assert(a[i] == x);
        }
    }
}

/// A relation that holds between each member and every later one holds so in a
/// selection, too.
pub proof fn select_keeps_order<A, B>(
    items: Seq<A>,
    keep: spec_fn(A) -> bool,
    make: spec_fn(A) -> B,
    related: spec_fn(B, B) -> bool,
)
    requires
        forall|i: int, j: int|
            0 <= i < j < items.len() ==> related(
                make(#[trigger] items[i]),
                make(#[trigger] items[j]),
            ),
    ensures
        forall|a: int, b: int|
            0 <= a < b < select(items, keep, make).len() ==> related(
                #[trigger] select(items, keep, make)[a],
                #[trigger] select(items, keep, make)[b],
            ),
    decreases items.len(),
{
    if items.len() == 0 {
        select_ends(items, keep, make);
        assert(items.take(0) =~= items);
    } else {
        let shorter = items.drop_last();
        let last = items.len() - 1;
        assert(items.take(last) =~= shorter);
        assert(items.take(last + 1) =~= items);
        assert forall|i: int, j: int| 0 <= i < j < shorter.len() implies related(
            make(#[trigger] shorter[i]),
            make(#[trigger] shorter[j]),
        ) by {
            assert(related(make(items[i]), make(items[j])));
        }
        select_keeps_order(shorter, keep, make, related);
        select_step(items, keep, make, last);
        let earlier = select(shorter, keep, make);
        let all = select(items, keep, make);
        assert forall|a: int, b: int| 0 <= a < b < all.len() implies related(
            #[trigger] all[a],
            #[trigger] all[b],
        ) by {
            assert(all[a] == earlier[a]);
            if b < earlier.len() {
                assert(all[b] == earlier[b]);
            } else {
                let i = select_origin(shorter, keep, make, a);
                assert(related(make(items[i]), make(items[last])));
            }
        }
    }
}

/// A selection goes part by part.
pub proof fn select_goes_part_by_part<A, B>(
    a: Seq<A>,
    b: Seq<A>,
    keep: spec_fn(A) -> bool,
    make: spec_fn(A) -> B,
)
    ensures
        select(a + b, keep, make) == select(a, keep, make) + select(b, keep, make),
{
    Seq::filter_distributes_over_add(a, b, keep);
    assert(select(a + b, keep, make) =~= select(a, keep, make) + select(b, keep, make));
}

/// A selection from one thing.
pub proof fn select_of_one<A, B>(item: A, keep: spec_fn(A) -> bool, make: spec_fn(A) -> B)
    ensures
        select(seq![item], keep, make) == (if keep(item) {
            seq![make(item)]
        } else {
            Seq::empty()
        }),
{
    let items = seq![item];
    select_ends(items, keep, make);
    select_step(items, keep, make, 0);
    assert(items.take(1) =~= items);
    assert(select(items, keep, make) =~= (if keep(item) {
        seq![make(item)]
    } else {
        Seq::empty()
    }));
}

/// Where everything satisfies a condition, filtering by it changes nothing.
pub proof fn filter_of_all<A>(items: Seq<A>, keep: spec_fn(A) -> bool)
    requires
        forall|i: int| 0 <= i < items.len() ==> keep(#[trigger] items[i]),
    ensures
        items.filter(keep) == items,
    decreases items.len(),
{
    reveal(Seq::filter);
    if items.len() > 0 {
        let shorter = items.drop_last();
        assert forall|i: int| 0 <= i < shorter.len() implies keep(#[trigger] shorter[i]) by {
            assert(shorter[i] == items[i]);
        }
        filter_of_all(shorter, keep);
        assert(shorter.push(items.last()) =~= items);
    }
}

/// Where nothing satisfies a condition, filtering by it leaves nothing.
pub proof fn filter_of_none<A>(items: Seq<A>, keep: spec_fn(A) -> bool)
    requires
        forall|i: int| 0 <= i < items.len() ==> !keep(#[trigger] items[i]),
    ensures
        items.filter(keep) == Seq::<A>::empty(),
    decreases items.len(),
{
    reveal(Seq::filter);
    if items.len() > 0 {
        let shorter = items.drop_last();
        assert forall|i: int| 0 <= i < shorter.len() implies !keep(#[trigger] shorter[i]) by {
            assert(shorter[i] == items[i]);
        }
        filter_of_none(shorter, keep);
    }
}

} // verus!
