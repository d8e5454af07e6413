//! A map whose keys are strings, kept in the order of its keys.

use crate::text::{
    is_text_before, same_text, text_before, text_order_is_strict_and_total, texts,
};
use vstd::prelude::*;

verus! {

/// A map from names to values, in the order of the names.
#[derive(Debug)]
pub struct NameMap<V> {
    names: Vec<String>,
    values: Vec<V>,
}

/// Each name comes before the ones that follow it; so none occurs twice.
pub open spec fn is_ordered(names: Seq<Seq<char>>) -> bool {
    forall|i: int, j: int| 0 <= i < j < names.len() ==> text_before(#[trigger] names[i], #[trigger] names[j])
}

/// An ordered list of names holds no name twice.
pub proof fn ordered_names_are_distinct(names: Seq<Seq<char>>)
    requires
        is_ordered(names),
    ensures
        names.no_duplicates(),
{
    assert forall|i: int, j: int| 0 <= i < names.len() && 0 <= j < names.len() && i != j implies names[i]
        != names[j] by {
        text_order_is_strict_and_total(names[i], names[i], names[i]);
        if i < j {
            assert(text_before(names[i], names[j]));
        } else {
            assert(text_before(names[j], names[i]));
        }
    }
}

impl<V> View for NameMap<V> {
    type V = Map<Seq<char>, V>;

    closed spec fn view(&self) -> Map<Seq<char>, V> {
        Map::new(
            |name: Seq<char>| texts(self.names@).contains(name),
            |name: Seq<char>| self.values@[texts(self.names@).index_of(name)],
        )
    }
}

impl<V> NameMap<V> {
    #[verifier::type_invariant]
    spec fn well_formed(self) -> bool {
        &&& self.names@.len() == self.values@.len()
        &&& is_ordered(texts(self.names@))
    }

    /// The names of the map, in their order.
    pub closed spec fn ordered_names(self) -> Seq<Seq<char>> {
        texts(self.names@)
    }

    /// The values of the map, in the order of their names.
    pub open spec fn ordered_values(self) -> Seq<V> {
        self.ordered_names().map_values(|name: Seq<char>| self@[name])
    }

    proof fn lemma_at(self, i: int)
        requires
            self.well_formed(),
            0 <= i < self.names@.len(),
        ensures
            self@.contains_key(self.names@[i]@),
            self@[self.names@[i]@] == self.values@[i],
    {
        let list = texts(self.names@);
        ordered_names_are_distinct(list);
        assert(list[i] == self.names@[i]@);
        assert(list.contains(list[i]));
        let k = list.index_of(list[i]);
        assert(list[k] == list[i]);
    }

    /// The map without entries.
    pub fn new() -> (r: Self)
        ensures
            r@ == Map::<Seq<char>, V>::empty(),
            r.ordered_names() == Seq::<Seq<char>>::empty(),
    {
        let r = NameMap { names: Vec::new(), values: Vec::new() };
        assert(texts(r.names@) =~= Seq::<Seq<char>>::empty());
        assert(r@ =~= Map::<Seq<char>, V>::empty());
        r
    }

    /// The number of entries.
    pub fn len(&self) -> (r: usize)
        ensures
            r == self.ordered_names().len(),
            r == self@.dom().len(),
            self@.dom().finite(),
            is_ordered(self.ordered_names()),
            forall|name: Seq<char>|
                self.ordered_names().contains(name) <==> #[trigger] self@.contains_key(name),
    {
        proof {
            use_type_invariant(self);
            let list = texts(self.names@);
            ordered_names_are_distinct(list);
            list.unique_seq_to_set();
            assert(list.to_set() =~= self@.dom());
        }
        self.names.len()
    }

    /// The values of the map, in the order of their names.
    pub fn into_values(self) -> (r: Vec<V>)
        ensures
            r@ == self.ordered_values(),
            is_ordered(self.ordered_names()),
            forall|name: Seq<char>|
                self.ordered_names().contains(name) <==> #[trigger] self@.contains_key(name),
    {
        proof {
            use_type_invariant(&self);
            assert forall|i: int| 0 <= i < self.values@.len() implies self.values@[i]
                == self.ordered_values()[i] by {
                self.lemma_at(i);
            }
            assert(self.values@ =~= self.ordered_values());
        }
        self.values
    }

    /// The map with the entries of `other` added, each in place of what it had for that name.
    pub fn extend(self, other: NameMap<V>) -> (r: Self)
        ensures
            r@ == self@.union_prefer_right(other@),
    {
        proof {
            use_type_invariant(&other);
        }
        let ghost given = other;
        let ghost list = texts(given.names@);
        let NameMap { names, values } = other;
        let mut r = self;
        let mut names = names;
        let mut values = values;
        assert(given@.restrict(list.skip(list.len() as int).to_set()) =~= Map::empty());
        assert(r@ =~= self@.union_prefer_right(
            given@.restrict(list.skip(list.len() as int).to_set()),
        ));
        while names.len() > 0
            invariant
                given.well_formed(),
                list == texts(given.names@),
                names@.len() == values@.len(),
                names@.len() <= list.len(),
                names@ == given.names@.take(names@.len() as int),
                values@ == given.values@.take(names@.len() as int),
                r@ == self@.union_prefer_right(
                    given@.restrict(list.skip(names@.len() as int).to_set()),
                ),
            decreases names@.len(),
        {
            let ghost n = names@.len();
            let (name, value) = match (names.pop(), values.pop()) {
                (Some(name), Some(value)) => (name, value),
                _ => {
                    return r;
                },
            };
            let ghost old_r = r@;
            proof {
                given.lemma_at(n - 1);
                assert(name == given.names@[n - 1]);
                assert(value == given.values@[n - 1]);
            }
            let ghost key = name@;
            r = r.insert(name, value);
            proof {
                let before = list.skip(n as int).to_set();
                let after = list.skip(n - 1).to_set();
                assert(list.skip(n - 1) =~= seq![key] + list.skip(n as int));
                assert forall|k: Seq<char>| #[trigger] after.contains(k) <==> before.contains(k) || k
                    == key by {
                    if after.contains(k) {
                        let p = list.skip(n - 1).index_of(k);
                        if p > 0 {
                            assert(list.skip(n as int)[p - 1] == k);
                        }
                    }
                    if before.contains(k) {
                        let p = list.skip(n as int).index_of(k);
                        assert(list.skip(n - 1)[p + 1] == k);
                    }
                    assert(list.skip(n - 1)[0] == key);
                }
                assert(r@ =~= self@.union_prefer_right(given@.restrict(after)));
            }
        }
        proof {
            assert(list.skip(0) =~= list);
            assert(given@.restrict(list.to_set()) =~= given@);
        }
        r
    }

    /// The value of a name, where the map has one.
    pub fn get(&self, name: &str) -> (r: Option<&V>)
        ensures
            r is Some <==> self@.contains_key(name@),
            r matches Some(value) ==> *value == self@[name@],
    {
        proof {
            use_type_invariant(self);
        }
        let mut i: usize = 0;
        while i < self.names.len()
            invariant
                i <= self.names@.len(),
                self.well_formed(),
                forall|j: int| 0 <= j < i ==> texts(self.names@)[j] != name@,
            decreases self.names@.len() - i,
        {
            if same_text(self.names[i].as_str(), name) {
                proof {
                    self.lemma_at(i as int);
                }
                return Some(&self.values[i]);
            }
            i += 1;
        }
        None
    }

    /// The map with `value` for `name`, in place of what it had for that name.
    pub fn insert(self, name: String, value: V) -> (r: Self)
        ensures
            r@ == self@.insert(name@, value),
    {
        proof {
            use_type_invariant(&self);
        }
        let ghost before = self;
        let NameMap { mut names, mut values } = self;
        let mut i: usize = 0;
        while i < names.len() && is_text_before(names[i].as_str(), name.as_str())
            invariant
                i <= names@.len(),
                names@ == before.names@,
                forall|j: int| 0 <= j < i ==> text_before(#[trigger] texts(names@)[j], name@),
            decreases names@.len() - i,
        {
            i += 1;
        }
        if i < names.len() && same_text(names[i].as_str(), name.as_str()) {
            values.set(i, value);
            let r = NameMap { names, values };
            proof {
                let list = texts(names@);
                ordered_names_are_distinct(list);
                assert(list[i as int] == name@);
                assert(list.contains(name@));
                assert forall|k: Seq<char>| #[trigger] list.contains(k) implies r@[k] == before@.insert(
                    name@,
                    value,
                )[k] by {
                    let p = list.index_of(k);
                    assert(list[p] == k);
                    if p == i {
                        assert(k == name@);
                    }
                }
                assert(r@ =~= before@.insert(name@, value));
            }
            return r;
        }
        names.insert(i, name);
        values.insert(i, value);
        proof {
            let old_list = texts(before.names@);
            let list = texts(names@);
            assert(list =~= old_list.insert(i as int, name@));
            assert forall|a: int, b: int| 0 <= a < b < list.len() implies text_before(
                #[trigger] list[a],
                #[trigger] list[b],
            ) by {
                if i < old_list.len() {
                    text_order_is_strict_and_total(old_list[i as int], name@, name@);
                    assert(text_before(name@, old_list[i as int]));
                    if a == i && b > i + 1 {
                        text_order_is_strict_and_total(name@, old_list[i as int], old_list[b - 1]);
                    }
                }
                if a != i && b != i {
                    let x = if a < i { a } else { a - 1 };
                    let y = if b < i { b } else { b - 1 };
                    assert(list[a] == old_list[x]);
                    assert(list[b] == old_list[y]);
                }
            }
        }
        let r = NameMap { names, values };
        proof {
            let old_list = texts(before.names@);
            let list = texts(names@);
            assert forall|k: Seq<char>| list.contains(k) <==> old_list.contains(k) || k == name@ by {
                if list.contains(k) {
                    let p = list.index_of(k);
                    assert(list[p] == k);
                    if p != i {
                        let x = if p < i { p } else { p - 1 };
                        assert(old_list[x] == k);
                    }
                }
                if old_list.contains(k) {
                    let p = old_list.index_of(k);
                    let x = if p < i { p } else { p + 1 };
                    assert(list[x] == k);
                }
                assert(list[i as int] == name@);
            }
            assert forall|k: Seq<char>| #[trigger] list.contains(k) implies r@[k] == before@.insert(
                name@,
                value,
            )[k] by {
                let p = list.index_of(k);
                assert(list[p] == k);
                r.lemma_at(p);
                if p == i {
                    assert(k == name@);
                } else {
                    let x = if p < i { p } else { p - 1 };
                    assert(old_list[x] == k);
                    before.lemma_at(x);
                    if k == name@ {
                        ordered_names_are_distinct(list);
                        assert(list[i as int] == list[p]);
                    }
                }
            }
            assert(r@ =~= before@.insert(name@, value));
        }
        r
    }
}

/// A map gives back what was put into it: the last value of each name, and the values of the
/// other map where two are brought together.
pub proof fn maps_give_back_what_was_put_in<V>(
    empty: NameMap<V>,
    map: NameMap<V>,
    name: String,
    value: V,
    with: NameMap<V>,
    other: NameMap<V>,
    both: NameMap<V>,
    asked: &str,
    of_empty: Option<&V>,
    of_map: Option<&V>,
    of_with: Option<&V>,
    of_other: Option<&V>,
    of_both: Option<&V>,
)
    requires
        call_ensures(NameMap::<V>::new, (), empty),
        call_ensures(NameMap::<V>::insert, (map, name, value), with),
        call_ensures(NameMap::<V>::extend, (map, other), both),
        call_ensures(NameMap::<V>::get, (&empty, asked), of_empty),
        call_ensures(NameMap::<V>::get, (&map, asked), of_map),
        call_ensures(NameMap::<V>::get, (&with, asked), of_with),
        call_ensures(NameMap::<V>::get, (&other, asked), of_other),
        call_ensures(NameMap::<V>::get, (&both, asked), of_both),
    ensures
        of_empty is None,
        asked@ == name@ ==> (of_with matches Some(found) && *found == value),
        asked@ != name@ ==> of_with == of_map,
        of_other is Some ==> of_both == of_other,
        of_other is None ==> of_both == of_map,
{
}

/// The values of a map come in the order of their names, one for each name.
pub proof fn values_come_in_the_order_of_their_names<V>(
    map: NameMap<V>,
    count: usize,
    values: Vec<V>,
    i: int,
    j: int,
)
    requires
        call_ensures(NameMap::<V>::len, (&map,), count),
        call_ensures(NameMap::<V>::into_values, (map,), values),
    ensures
        values@.len() == count,
        count == map@.dom().len(),
        0 <= i < count ==> map@.contains_key(map.ordered_names()[i]) && values@[i]
            == map@[map.ordered_names()[i]],
        0 <= i < j < count ==> text_before(map.ordered_names()[i], map.ordered_names()[j]),
{
    assert(is_ordered(map.ordered_names()));
    if 0 <= i < count {
        assert(map.ordered_names().contains(map.ordered_names()[i]));
    }
}

}
