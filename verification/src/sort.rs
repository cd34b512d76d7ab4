//! Lists in the order of their names.
use crate::text::{chars_of, texts};
use vstd::prelude::*;

verus! {

/// Whether `a` comes before `b` in the order of texts, or is the same: the first
/// character that differs decides, and a text comes before what continues it.
pub open spec fn text_le(a: Seq<char>, b: Seq<char>) -> bool
    decreases a.len(),
{
    if a.len() == 0 {
        true
    } else if b.len() == 0 {
        false
    } else if a[0] == b[0] {
        text_le(a.drop_first(), b.drop_first())
    } else {
        a[0] < b[0]
    }
}

/// Something with a name.
pub trait HasName {
    /// The name.
    spec fn name(&self) -> Seq<char>;
}

/// Something whose name can be read.
pub trait Named: HasName {
    /// The name.
    fn name_text(&self) -> (text: &str)
        ensures
            text@ == self.name(),
    ;
}

impl HasName for String {
    open spec fn name(&self) -> Seq<char> {
        self@
    }
}

impl Named for String {
    fn name_text(&self) -> &str {
        self.as_str()
    }
}

/// A text is its own name.
impl HasName for Seq<char> {
    open spec fn name(&self) -> Seq<char> {
        *self
    }
}

/// Whether a list is in the order of names.
pub open spec fn in_order<T: HasName>(items: Seq<T>) -> bool {
    forall|i: int, j: int|
        0 <= i < j < items.len() ==> text_le(
            (#[trigger] items[i]).name(),
            (#[trigger] items[j]).name(),
        )
}

/// Whether an item has a given name.
pub open spec fn has_name<T: HasName>(name: Seq<char>) -> spec_fn(T) -> bool {
    |item: T| item.name() == name
}

/// The items of a list that have a given name, in the order of the list.
pub open spec fn with_name<T: HasName>(items: Seq<T>, name: Seq<char>) -> Seq<T> {
    items.filter(has_name(name))
}

/// Whether `sorted` holds the given items in the order of their names, and those
/// of the same name as they were.
pub open spec fn is_sorting<T: HasName>(sorted: Seq<T>, items: Seq<T>) -> bool {
    &&& in_order(sorted)
    &&& forall|name: Seq<char>| #[trigger] with_name(sorted, name) == with_name(items, name)
}

/// Of any two texts, one comes before the other or they are the same.
pub proof fn law_text_order_is_total(a: Seq<char>, b: Seq<char>)
    ensures
        text_le(a, b) || text_le(b, a),
    decreases a.len(),
{
    if a.len() > 0 && b.len() > 0 && a[0] == b[0] {
        law_text_order_is_total(a.drop_first(), b.drop_first());
    }
}

/// The order of texts carries over.
pub proof fn law_text_order_is_transitive(a: Seq<char>, b: Seq<char>, c: Seq<char>)
    requires
        text_le(a, b),
        text_le(b, c),
    ensures
        text_le(a, c),
    decreases a.len(),
{
    if a.len() > 0 && b.len() > 0 && c.len() > 0 && a[0] == b[0] && b[0] == c[0] {
        law_text_order_is_transitive(a.drop_first(), b.drop_first(), c.drop_first());
    }
}

/// Two different texts do not both come before the other.
pub proof fn law_text_order_is_antisymmetric(a: Seq<char>, b: Seq<char>)
    requires
        text_le(a, b),
        text_le(b, a),
    ensures
        a == b,
    decreases a.len(),
{
    if a.len() > 0 && b.len() > 0 {
        assert(a[0] == b[0]);
        law_text_order_is_antisymmetric(a.drop_first(), b.drop_first());
        assert(a =~= seq![a[0]] + a.drop_first());
        assert(b =~= seq![b[0]] + b.drop_first());
    } else {
        assert(a =~= b);
    }
}

/// Whether `a` comes before `b` in the order of texts, or is the same.
pub fn text_not_after(a: &str, b: &str) -> (le: bool)
    ensures
        le == text_le(a@, b@),
{
    let first = chars_of(a);
    let second = chars_of(b);
    let mut i: usize = 0;
    assert(a@.skip(0) =~= a@);
    assert(b@.skip(0) =~= b@);
    while i < first.len() && i < second.len()
        invariant
            first@ == a@,
            second@ == b@,
            i <= first@.len(),
            i <= second@.len(),
            text_le(a@, b@) == text_le(a@.skip(i as int), b@.skip(i as int)),
        decreases first.len() - i,
    {
        assert(a@.skip(i as int).drop_first() =~= a@.skip(i + 1));
        assert(b@.skip(i as int).drop_first() =~= b@.skip(i + 1));
        let c: char = first[i];
        let d: char = second[i];
        if c != d {
            return c < d;
        }
        i = i + 1;
    }
    i == first.len()
}

/// Putting an item in its place among ordered items keeps the order, and among
/// items of the same name the new one comes first.
proof fn lemma_insert<T: HasName>(items: Seq<T>, at: int, item: T)
    requires
        in_order(items),
        0 <= at <= items.len(),
        forall|j: int| 0 <= j < at ==> !text_le(item.name(), (#[trigger] items[j]).name()),
        forall|j: int|
            at <= j < items.len() ==> text_le(item.name(), (#[trigger] items[j]).name()),
    ensures
        in_order(items.insert(at, item)),
        forall|name: Seq<char>| #[trigger]
            with_name(items.insert(at, item), name) == with_name(seq![item], name) + with_name(
                items,
                name,
            ),
{
    let all = items.insert(at, item);
    assert forall|i: int, j: int| 0 <= i < j < all.len() implies text_le(
        (#[trigger] all[i]).name(),
        (#[trigger] all[j]).name(),
    ) by {
        let old_i = if i < at {
            i
        } else {
            i - 1
        };
        let old_j = if j < at {
            j
        } else {
            j - 1
        };
        if i != at {
            assert(all[i] == items[old_i]);
        }
        if j != at {
            assert(all[j] == items[old_j]);
        }
        if j == at {
            law_text_order_is_total(item.name(), items[old_i].name());
        } else if i != at {
            assert(text_le(items[old_i].name(), items[old_j].name()));
        }
    }
    assert forall|name: Seq<char>| #[trigger] with_name(all, name) == with_name(seq![item], name)
        + with_name(items, name) by {
        let low = items.take(at);
        let high = items.skip(at);
        let keep = has_name::<T>(name);
        assert(all =~= low + (seq![item] + high));
        assert(items =~= low + high);
        Seq::filter_distributes_over_add(low, seq![item] + high, keep);
        Seq::filter_distributes_over_add(seq![item], high, keep);
        Seq::filter_distributes_over_add(low, high, keep);
        if item.name() == name {
            assert(low.filter(keep) =~= seq![]) by {
                law_text_order_is_total(name, name);
                lemma_none_named(low, name);
            }
        } else {
            assert(with_name(seq![item], name) =~= seq![]) by {
                lemma_none_named(seq![item], name);
            }
        }
    }
}

/// A list without items of a name has none to show.
proof fn lemma_none_named<T: HasName>(items: Seq<T>, name: Seq<char>)
    requires
        forall|j: int| 0 <= j < items.len() ==> (#[trigger] items[j]).name() != name,
    ensures
        with_name(items, name).len() == 0,
    decreases items.len(),
{
    reveal(Seq::filter);
    if items.len() > 0 {
        lemma_none_named(items.drop_last(), name);
    }
}

/// Where an item belongs among ordered items: before those of its name.
fn place<T: Named>(items: &Vec<T>, item: &T) -> (at: usize)
    requires
        in_order(items@),
    ensures
        at <= items@.len(),
        forall|j: int| 0 <= j < at ==> !text_le(item.name(), (#[trigger] items@[j]).name()),
        forall|j: int|
            at <= j < items@.len() ==> text_le(item.name(), (#[trigger] items@[j]).name()),
{
    let mut low: usize = 0;
    let mut high: usize = items.len();
    while low < high
        invariant
            in_order(items@),
            low <= high <= items@.len(),
            forall|j: int| 0 <= j < low ==> !text_le(item.name(), (#[trigger] items@[j]).name()),
            forall|j: int|
                high <= j < items@.len() ==> text_le(item.name(), (#[trigger] items@[j]).name()),
        decreases high - low,
    {
        let middle: usize = low + (high - low) / 2;
        if text_not_after(item.name_text(), items[middle].name_text()) {
            proof {
                assert forall|j: int| middle <= j < items@.len() implies text_le(
                    item.name(),
                    (#[trigger] items@[j]).name(),
                ) by {
                    if j > middle {
                        law_text_order_is_transitive(
                            item.name(),
                            items@[middle as int].name(),
                            items@[j].name(),
                        );
                    }
                }
            }
            high = middle;
        } else {
            proof {
                assert forall|j: int| 0 <= j <= middle implies !text_le(
                    item.name(),
                    (#[trigger] items@[j]).name(),
                ) by {
                    if j < middle && text_le(item.name(), items@[j].name()) {
                        law_text_order_is_transitive(
                            item.name(),
                            items@[j].name(),
                            items@[middle as int].name(),
                        );
                    }
                }
            }
            low = middle + 1;
        }
    }
    low
}

/// The items in the order of their names. Items of the same name stay in the
/// order they were in.
pub fn sort_by_name<T: Named>(items: Vec<T>) -> (sorted: Vec<T>)
    ensures
        is_sorting(sorted@, items@),
{
    let mut rest = items;
    let mut sorted: Vec<T> = Vec::new();
    assert forall|name: Seq<char>| #[trigger] with_name(items@, name) == with_name(rest@, name)
        + with_name(sorted@, name) by {
        lemma_none_named(sorted@, name);
        assert(with_name(sorted@, name) =~= seq![]);
    }
    while rest.len() > 0
        invariant
            in_order(sorted@),
            forall|name: Seq<char>| #[trigger]
                with_name(items@, name) == with_name(rest@, name) + with_name(sorted@, name),
        decreases rest.len(),
    {
        let ghost before = rest@;
        let ghost placed = sorted@;
        if let Some(item) = rest.pop() {
            let at = place(&sorted, &item);
            proof {
                lemma_insert(sorted@, at as int, item);
            }
            sorted.insert(at, item);
            assert forall|name: Seq<char>| #[trigger] with_name(items@, name) == with_name(
                rest@,
                name,
            ) + with_name(sorted@, name) by {
                let keep = has_name::<T>(name);
                assert(before =~= rest@ + seq![item]);
                Seq::filter_distributes_over_add(rest@, seq![item], keep);
                assert(with_name(items@, name) == with_name(before, name) + with_name(
                    placed,
                    name,
                ));
            }
        }
    }
    assert forall|name: Seq<char>| #[trigger] with_name(sorted@, name) == with_name(
        items@,
        name,
    ) by {
        lemma_none_named(rest@, name);
        assert(with_name(items@, name) =~= with_name(sorted@, name));
    }
    sorted
}

/// An item that a list begins with is the first of its name.
proof fn lemma_first_named<T: HasName>(items: Seq<T>, name: Seq<char>)
    requires
        items.len() > 0,
    ensures
        with_name(items, name) == (if items[0].name() == name {
            seq![items[0]]
        } else {
            seq![]
        }) + with_name(items.drop_first(), name),
{
    let keep = has_name::<T>(name);
    let one = seq![items[0]];
    let rest = items.drop_first();
    assert(items =~= one + rest);
    Seq::filter_distributes_over_add(one, rest, keep);
    reveal(Seq::filter);
    assert(one.drop_last().filter(keep) =~= Seq::<T>::empty());
    assert(one.last() == items[0]);
    if items[0].name() == name {
        assert(one.filter(keep) =~= one);
    } else {
        assert(one.filter(keep) =~= Seq::<T>::empty());
    }
}

/// A name that a list has to show belongs to one of its items.
proof fn lemma_some_named<T: HasName>(items: Seq<T>, name: Seq<char>)
    requires
        with_name(items, name).len() > 0,
    ensures
        exists|i: int| 0 <= i < items.len() && (#[trigger] items[i]).name() == name,
{
    if forall|i: int| 0 <= i < items.len() ==> (#[trigger] items[i]).name() != name {
        lemma_none_named(items, name);
    }
}

/// There is but one way to put items in order and leave those of the same name as
/// they were.
pub proof fn law_order_leaves_no_choice<T: HasName>(a: Seq<T>, b: Seq<T>)
    requires
        in_order(a),
        in_order(b),
        forall|name: Seq<char>| #[trigger] with_name(a, name) == with_name(b, name),
    ensures
        a == b,
    decreases a.len(),
{
    if a.len() == 0 {
        if b.len() > 0 {
            lemma_first_named(b, b[0].name());
            assert(with_name(a, b[0].name()).len() > 0);
            lemma_some_named(a, b[0].name());
        }
    } else {
        let x = a[0].name();
        lemma_first_named(a, x);
        assert(with_name(b, x).len() > 0);
        lemma_some_named(b, x);
        let j = choose|j: int| 0 <= j < b.len() && (#[trigger] b[j]).name() == x;
        let y = b[0].name();
        law_text_order_is_total(x, x);
        law_text_order_is_total(y, y);
        assert(text_le(y, x));
        lemma_first_named(b, y);
        assert(with_name(a, y).len() > 0);
        lemma_some_named(a, y);
        let i = choose|i: int| 0 <= i < a.len() && (#[trigger] a[i]).name() == y;
        assert(text_le(x, y));
        law_text_order_is_antisymmetric(x, y);
        assert(with_name(a, x)[0] == a[0]);
        assert(with_name(b, x)[0] == b[0]);
        let rest_a = a.drop_first();
        let rest_b = b.drop_first();
        assert forall|name: Seq<char>| #[trigger] with_name(rest_a, name) == with_name(
            rest_b,
            name,
        ) by {
            lemma_first_named(a, name);
            lemma_first_named(b, name);
            assert(with_name(a, name) == with_name(b, name));
            if name == x {
                assert(with_name(rest_a, name) =~= with_name(a, name).drop_first());
                assert(with_name(rest_b, name) =~= with_name(b, name).drop_first());
            } else {
                assert(with_name(rest_a, name) =~= with_name(a, name));
                assert(with_name(rest_b, name) =~= with_name(b, name));
            }
        }
        assert(in_order(rest_a)) by {
            assert(forall|k: int| 0 <= k < rest_a.len() ==> rest_a[k] == a[k + 1]);
        }
        assert(in_order(rest_b)) by {
            assert(forall|k: int| 0 <= k < rest_b.len() ==> rest_b[k] == b[k + 1]);
        }
        law_order_leaves_no_choice(rest_a, rest_b);
        assert(a =~= seq![a[0]] + rest_a);
        assert(b =~= seq![b[0]] + rest_b);
    }
}

/// Putting items in order neither adds nor loses any.
pub proof fn law_sorting_keeps_the_items<T: HasName>(sorted: Seq<T>, items: Seq<T>)
    requires
        is_sorting(sorted, items),
    ensures
        forall|item: T| #[trigger] sorted.contains(item) <==> items.contains(item),
{
    assert forall|item: T| #[trigger] sorted.contains(item) <==> items.contains(item) by {
        let name = item.name();
        lemma_contained_by_name(sorted, item);
        lemma_contained_by_name(items, item);
        assert(with_name(sorted, name) == with_name(items, name));
    }
}

/// An item is in a list just when it is among those of its name.
proof fn lemma_contained_by_name<T: HasName>(items: Seq<T>, item: T)
    ensures
        items.contains(item) <==> with_name(items, item.name()).contains(item),
    decreases items.len(),
{
    reveal(Seq::filter);
    let named = with_name(items, item.name());
    if items.len() > 0 {
        let rest = items.drop_last();
        let before = with_name(rest, item.name());
        lemma_contained_by_name(rest, item);
        assert(items =~= rest.push(items.last()));
        if items.contains(item) {
            let i = choose|i: int| 0 <= i < items.len() && items[i] == item;
            if i < rest.len() {
                assert(rest[i] == item);
                let j = choose|j: int| 0 <= j < before.len() && before[j] == item;
                assert(named[j] == item);
            } else {
                assert(named.last() == item);
            }
        }
        if named.contains(item) {
            let j = choose|j: int| 0 <= j < named.len() && named[j] == item;
            if j < before.len() {
                assert(before[j] == item);
                let i = choose|i: int| 0 <= i < rest.len() && rest[i] == item;
                assert(items[i] == item);
            } else {
                assert(items[items.len() - 1] == item);
            }
        }
    }
}

/// Where strings are put in order, so are their texts.
pub proof fn lemma_texts_are_sorted(sorted: Seq<String>, strings: Seq<String>)
    requires
        is_sorting(sorted, strings),
    ensures
        is_sorting(texts(sorted), texts(strings)),
{
    assert(forall|i: int|
        0 <= i < sorted.len() ==> #[trigger] texts(sorted)[i].name() == sorted[i].name());
    assert forall|name: Seq<char>| #[trigger] with_name(texts(sorted), name) == with_name(
        texts(strings),
        name,
    ) by {
        lemma_texts_with_name(sorted, name);
        lemma_texts_with_name(strings, name);
        assert(with_name(sorted, name) == with_name(strings, name));
    }
}

/// The texts of a given name are those of the strings of that name.
proof fn lemma_texts_with_name(strings: Seq<String>, name: Seq<char>)
    ensures
        with_name(texts(strings), name) == texts(with_name(strings, name)),
    decreases strings.len(),
{
    reveal(Seq::filter);
    if strings.len() > 0 {
        lemma_texts_with_name(strings.drop_last(), name);
        assert(texts(strings).drop_last() =~= texts(strings.drop_last()));
        assert(texts(strings).last() == strings.last()@);
        if strings.last()@ == name {
            assert(texts(with_name(strings, name)) =~= texts(
                with_name(strings.drop_last(), name),
            ).push(strings.last()@));
        }
    } else {
        assert(with_name(texts(strings), name) =~= texts(with_name(strings, name)));
    }
}

/// The same items give the same list, however they are put in order: where they
/// are texts, equal texts give equal lists.
pub proof fn law_equal_items_are_sorted_equally<T: HasName>(
    first: Seq<T>,
    second: Seq<T>,
    items: Seq<T>,
)
    requires
        is_sorting(first, items),
        is_sorting(second, items),
    ensures
        first == second,
{
    assert forall|name: Seq<char>| #[trigger] with_name(first, name) == with_name(
        second,
        name,
    ) by {
        assert(with_name(first, name) == with_name(items, name));
        assert(with_name(second, name) == with_name(items, name));
    }
    law_order_leaves_no_choice(first, second);
}

/// Of two texts that go on differently after the same beginning, the one with the
/// lesser character there comes first.
pub proof fn law_first_different_character_decides(
    beginning: Seq<char>,
    c: char,
    d: char,
    rest: Seq<char>,
    other: Seq<char>,
)
    requires
        c < d,
    ensures
        text_le(beginning.push(c) + rest, beginning.push(d) + other),
        !text_le(beginning.push(d) + other, beginning.push(c) + rest),
    decreases beginning.len(),
{
    let a = beginning.push(c) + rest;
    let b = beginning.push(d) + other;
    if beginning.len() > 0 {
        let shorter = beginning.drop_first();
        law_first_different_character_decides(shorter, c, d, rest, other);
        assert(a.drop_first() =~= shorter.push(c) + rest);
        assert(b.drop_first() =~= shorter.push(d) + other);
        assert(a[0] == b[0]);
    } else {
        assert(a[0] == c && b[0] == d);
    }
}

/// A text comes before whatever continues it, and not behind it.
pub proof fn law_text_comes_before_what_continues_it(text: Seq<char>, more: Seq<char>)
    ensures
        text_le(text, text + more),
        more.len() > 0 ==> !text_le(text + more, text),
    decreases text.len(),
{
    if text.len() > 0 {
        law_text_comes_before_what_continues_it(text.drop_first(), more);
        assert((text + more).drop_first() =~= text.drop_first() + more);
    }
}

/// In a sorted list of texts, a later text never has the lesser character where it
/// first differs from an earlier one, nor does it break off where that one goes on.
pub proof fn law_sorted_texts_go_up(
    sorted: Seq<Seq<char>>,
    items: Seq<Seq<char>>,
    i: int,
    j: int,
    beginning: Seq<char>,
    c: char,
    d: char,
    rest: Seq<char>,
    other: Seq<char>,
)
    requires
        is_sorting(sorted, items),
        0 <= i < j < sorted.len(),
    ensures
        sorted[i] == beginning.push(c) + rest && sorted[j] == beginning.push(d) + other ==> c <= d,
        sorted[i] != sorted[j] + seq![c] + rest,
        sorted.len() == items.len(),
{
    assert(text_le(sorted[i].name(), sorted[j].name()));
    if d < c {
        law_first_different_character_decides(beginning, d, c, other, rest);
    }
    law_text_comes_before_what_continues_it(sorted[j], seq![c] + rest);
    assert(sorted[j] + seq![c] + rest =~= sorted[j] + (seq![c] + rest));
    law_sorting_keeps_the_number(sorted, items);
}

/// Sorting keeps the number of items, and of each item as many as there were.
pub proof fn law_sorting_keeps_the_number<T: HasName>(sorted: Seq<T>, items: Seq<T>)
    requires
        is_sorting(sorted, items),
    ensures
        sorted.len() == items.len(),
        sorted.to_multiset() == items.to_multiset(),
{
    assert forall|item: T| #[trigger] sorted.to_multiset().count(item)
        == items.to_multiset().count(item) by {
        lemma_counted_by_name(sorted, item);
        lemma_counted_by_name(items, item);
        assert(with_name(sorted, item.name()) == with_name(items, item.name()));
    }
    assert(sorted.to_multiset() =~= items.to_multiset());
    sorted.to_multiset_ensures();
    items.to_multiset_ensures();
}

/// An item is in a list as often as it is among those of its name.
proof fn lemma_counted_by_name<T: HasName>(items: Seq<T>, item: T)
    ensures
        items.to_multiset().count(item) == with_name(items, item.name()).to_multiset().count(item),
    decreases items.len(),
{
    broadcast use vstd::multiset::group_multiset_axioms;

    reveal(Seq::filter);
    if items.len() > 0 {
        let rest = items.drop_last();
        let before = with_name(rest, item.name());
        lemma_counted_by_name(rest, item);
        rest.to_multiset_ensures();
        before.to_multiset_ensures();
        assert(items =~= rest.push(items.last()));
        assert(items.to_multiset() =~= rest.to_multiset().insert(items.last()));
        if items.last().name() == item.name() {
            assert(with_name(items, item.name()) =~= before.push(items.last()));
            assert(with_name(items, item.name()).to_multiset() =~= before.to_multiset().insert(
                items.last(),
            ));
        } else {
            assert(with_name(items, item.name()) =~= before);
            assert(items.last() != item);
        }
    } else {
        assert(with_name(items, item.name()) =~= items);
    }
}

} // verus!
