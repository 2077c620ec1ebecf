//! Lists in the order of names.

use crate::text;
use vstd::prelude::*;

verus! {

/// What is listed by name, and by identity where names are the same.
pub trait Named: DeepView + Sized {
    spec fn name_in(content: Self::V) -> Seq<char>;

    spec fn id_in(content: Self::V) -> Seq<char>;

    fn listed_name(&self) -> (r: &str)
        ensures
            r@ == Self::name_in(self.deep_view()),
    ;

    fn listed_id(&self) -> (r: &str)
        ensures
            r@ == Self::id_in(self.deep_view()),
    ;
}

/// One stands before another in a list.
pub open spec fn listed_before<T: Named>(a: T::V, b: T::V) -> bool {
    if T::name_in(a) != T::name_in(b) {
        text::less(T::name_in(a), T::name_in(b))
    } else {
        text::less(T::id_in(a), T::id_in(b))
    }
}

/// A list with one more put in its place.
pub open spec fn with_item<T: Named>(list: Seq<T::V>, item: T::V) -> Seq<T::V>
    decreases list.len(),
{
    if list.len() == 0 {
        seq![item]
    } else if listed_before::<T>(item, list.last()) {
        with_item::<T>(list.drop_last(), item).push(list.last())
    } else {
        list.push(item)
    }
}

/// A list in order. What is alike keeps its order.
pub open spec fn in_order<T: Named>(list: Seq<T::V>) -> Seq<T::V>
    decreases list.len(),
{
    if list.len() == 0 {
        Seq::empty()
    } else {
        with_item::<T>(in_order::<T>(list.drop_last()), list.last())
    }
}

fn is_before<T: Named>(a: &T, b: &T) -> (r: bool)
    ensures
        r == listed_before::<T>(a.deep_view(), b.deep_view()),
{
    if !text::same(a.listed_name(), b.listed_name()) {
        text::comes_before(a.listed_name(), b.listed_name())
    } else {
        text::comes_before(a.listed_id(), b.listed_id())
    }
}

fn insert_item<T: Named>(list: &mut Vec<T>, item: T)
    ensures
        final(list).deep_view() == with_item::<T>(old(list).deep_view(), item.deep_view()),
{
    let ghost before = list.deep_view();
    let ghost seen = item.deep_view();
    let mut i: usize = list.len();
    proof {
        assert(before.take(i as int) =~= before);
        assert(with_item::<T>(before, seen) =~= with_item::<T>(before.take(i as int), seen)
            + before.skip(i as int));
    }
    while i > 0 && is_before(&item, &list[i - 1])
        invariant
            i <= list.len(),
            before == old(list).deep_view(),
            list.deep_view() == before,
            item.deep_view() == seen,
            with_item::<T>(before, seen) == with_item::<T>(before.take(i as int), seen)
                + before.skip(i as int),
        decreases i,
    {
        proof {
            assert(before.take(i as int).drop_last() =~= before.take(i - 1));
            assert(before.take(i as int).last() == list@[i - 1].deep_view());
            assert(with_item::<T>(before.take(i - 1), seen).push(before[i - 1]) + before.skip(
                i as int,
            ) =~= with_item::<T>(before.take(i - 1), seen) + before.skip(i - 1));
        }
        i -= 1;
    }
    proof {
        if i > 0 {
            assert(before.take(i as int).last() == list@[i - 1].deep_view());
        }
        assert(with_item::<T>(before.take(i as int), seen) =~= before.take(i as int).push(seen));
    }
    list.insert(i, item);
    proof {
        assert(list.deep_view() =~= before.take(i as int).push(seen) + before.skip(i as int));
    }
}

/// A list in order.
pub fn sort<T: Named>(found: Vec<T>) -> (r: Vec<T>)
    ensures
        r.deep_view() == in_order::<T>(found.deep_view()),
{
    let ghost list = found.deep_view();
    let mut rest = found;
    let mut out: Vec<T> = Vec::new();
    let ghost mut done: int = 0;
    proof {
        assert(list.take(0) =~= Seq::empty());
        assert(list.skip(0) =~= list);
        assert(out.deep_view() =~= Seq::empty());
    }
    while rest.len() > 0
        invariant
            0 <= done <= list.len(),
            rest.deep_view() == list.skip(done),
            out.deep_view() == in_order::<T>(list.take(done)),
            rest.len() == list.len() - done,
        decreases rest.len(),
    {
        let ghost items = rest@;
        let ghost whole = rest.deep_view();
        let item = rest.remove(0);
        proof {
            assert(item.deep_view() == whole[0]);
            assert forall|j: int| 0 <= j < rest.len() implies #[trigger] rest.deep_view()[j]
                == list.skip(done + 1)[j] by {
                assert(rest@[j] == items[j + 1]);
                assert(whole[j + 1] == items[j + 1].deep_view());
                assert(whole[j + 1] == list.skip(done)[j + 1]);
            }
            assert(whole[0] == list[done]);
            assert(list.take(done + 1).drop_last() =~= list.take(done));
            assert(list.take(done + 1).last() == list[done]);
            assert(rest.deep_view() =~= list.skip(done + 1));
            done = done + 1;
        }
        insert_item(&mut out, item);
    }
    proof {
        assert(list.take(done) =~= list);
    }
    out
}

/// A list in order holds what was found, and nothing stands before what comes
/// before it.
pub proof fn law_lists_are_in_order<T: Named>(list: Seq<T::V>)
    ensures
        in_order::<T>(list).to_multiset() == list.to_multiset(),
        forall|i: int, j: int|
            0 <= i < j < in_order::<T>(list).len() ==> !listed_before::<T>(
                #[trigger] in_order::<T>(list)[j],
                #[trigger] in_order::<T>(list)[i],
            ),
    decreases list.len(),
{
    broadcast use vstd::seq_lib::group_to_multiset_ensures;

    if list.len() == 0 {
        assert(in_order::<T>(list) =~= list);
    } else {
        let before = list.drop_last();
        law_lists_are_in_order::<T>(before);
        lemma_with_item::<T>(in_order::<T>(before), list.last());
        assert(before.push(list.last()) =~= list);
    }
}

proof fn lemma_less_facts(a: Seq<char>, b: Seq<char>, c: Seq<char>)
    ensures
        !text::less(a, a),
        text::less(a, b) ==> !text::less(b, a),
        text::less(b, c) ==> !text::less(c, b),
        text::less(a, c) ==> !text::less(c, a),
        text::less(c, b) && text::less(b, a) ==> text::less(c, a),
        text::less(c, a) && text::less(a, b) ==> text::less(c, b),
        text::less(a, b) && text::less(b, c) ==> text::less(a, c),
        a != b ==> text::less(a, b) || text::less(b, a),
        b != c ==> text::less(b, c) || text::less(c, b),
        a != c ==> text::less(a, c) || text::less(c, a),
{
    text::lemma_less_irreflexive(a);
    text::lemma_less_irreflexive(b);
    text::lemma_less_irreflexive(c);
    text::lemma_less_total(a, b);
    text::lemma_less_total(b, c);
    text::lemma_less_total(a, c);
    if text::less(a, b) && text::less(b, a) {
        text::lemma_less_transitive(a, b, a);
    }
    if text::less(b, c) && text::less(c, b) {
        text::lemma_less_transitive(b, c, b);
    }
    if text::less(a, c) && text::less(c, a) {
        text::lemma_less_transitive(a, c, a);
    }
    if text::less(c, b) && text::less(b, a) {
        text::lemma_less_transitive(c, b, a);
    }
    if text::less(c, a) && text::less(a, b) {
        text::lemma_less_transitive(c, a, b);
    }
    if text::less(a, b) && text::less(b, c) {
        text::lemma_less_transitive(a, b, c);
    }
}

proof fn lemma_listed_before_is_order<T: Named>(a: T::V, b: T::V, c: T::V)
    ensures
        listed_before::<T>(a, b) ==> !listed_before::<T>(b, a),
        !listed_before::<T>(b, a) && !listed_before::<T>(c, b) ==> !listed_before::<T>(c, a),
{
    lemma_less_facts(T::name_in(a), T::name_in(b), T::name_in(c));
    lemma_less_facts(T::id_in(a), T::id_in(b), T::id_in(c));
}

proof fn lemma_with_item<T: Named>(list: Seq<T::V>, item: T::V)
    requires
        forall|i: int, j: int|
            0 <= i < j < list.len() ==> !listed_before::<T>(#[trigger] list[j], #[trigger] list[i]),
    ensures
        with_item::<T>(list, item).to_multiset() == list.push(item).to_multiset(),
        with_item::<T>(list, item).len() == list.len() + 1,
        forall|i: int, j: int|
            0 <= i < j < with_item::<T>(list, item).len() ==> !listed_before::<T>(
                #[trigger] with_item::<T>(list, item)[j],
                #[trigger] with_item::<T>(list, item)[i],
            ),
        forall|i: int|
            0 <= i < with_item::<T>(list, item).len() ==> #[trigger] with_item::<T>(list, item)[i]
                == item || list.contains(with_item::<T>(list, item)[i]),
    decreases list.len(),
{
    broadcast use vstd::seq_lib::group_to_multiset_ensures;

    let out = with_item::<T>(list, item);
    if list.len() == 0 {
        assert(out =~= list.push(item));
        assert(out[0] == item);
    } else if listed_before::<T>(item, list.last()) {
        let rest = list.drop_last();
        let last = list.last();
        assert forall|i: int, j: int| 0 <= i < j < rest.len() implies !listed_before::<T>(
            #[trigger] rest[j],
            #[trigger] rest[i],
        ) by {
            assert(rest[j] == list[j] && rest[i] == list[i]);
        }
        lemma_with_item::<T>(rest, item);
        let inner = with_item::<T>(rest, item);
        assert(out == inner.push(last));
        assert(rest.push(last) =~= list);
        assert(out.to_multiset() =~= list.push(item).to_multiset());
        assert forall|i: int| 0 <= i < out.len() implies #[trigger] out[i] == item
            || list.contains(out[i]) by {
            if i < inner.len() {
                assert(out[i] == inner[i]);
                if inner[i] != item {
                    let k = choose|k: int| 0 <= k < rest.len() && rest[k] == inner[i];
                    assert(list[k] == inner[i]);
                }
            } else {
                assert(list[list.len() - 1] == out[i]);
            }
        }
        assert forall|i: int, j: int| 0 <= i < j < out.len() implies !listed_before::<T>(
            #[trigger] out[j],
            #[trigger] out[i],
        ) by {
            if j < inner.len() {
                assert(out[j] == inner[j] && out[i] == inner[i]);
            } else {
                assert(out[i] == inner[i]);
                lemma_listed_before_is_order::<T>(item, last, last);
                if inner[i] != item {
                    let k = choose|k: int| 0 <= k < rest.len() && rest[k] == inner[i];
                    assert(list[k] == inner[i]);
                    assert(list[list.len() - 1] == last);
                }
            }
        }
    } else {
        assert(out == list.push(item));
        assert forall|i: int| 0 <= i < out.len() implies #[trigger] out[i] == item
            || list.contains(out[i]) by {
            if i < list.len() {
                assert(list[i] == out[i]);
            }
        }
        assert forall|i: int, j: int| 0 <= i < j < out.len() implies !listed_before::<T>(
            #[trigger] out[j],
            #[trigger] out[i],
        ) by {
            if j < list.len() {
                assert(out[j] == list[j] && out[i] == list[i]);
            } else {
                assert(out[i] == list[i]);
                let last = list.last();
                assert(list[list.len() - 1] == last);
                if i < list.len() - 1 {
                    assert(!listed_before::<T>(list[list.len() - 1], list[i]));
                    lemma_listed_before_is_order::<T>(list[i], last, item);
                } else {
                    assert(out[i] == last);
                }
            }
        }
    }
}

} // verus!
