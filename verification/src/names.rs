//! The first entry of a name: where lists are searched by name, the first match counts.

use vstd::prelude::*;
use vstd::string::*;

verus! {

/// What goes by a name.
pub trait Named: Sized {
    /// The name.
    spec fn spec_name(&self) -> Seq<char>;

    /// The name.
    fn named(&self) -> (r: &String)
        ensures
            r@ == self.spec_name(),
    ;
}

/// The names of the items, in order.
pub open spec fn names_of<T: Named>(items: Seq<T>) -> Seq<Seq<char>> {
    items.map_values(|t: T| t.spec_name())
}

/// `i` is the first position in `names` that holds `name`.
pub open spec fn is_first_named(names: Seq<Seq<char>>, name: Seq<char>, i: int) -> bool {
    &&& 0 <= i < names.len()
    &&& names[i] == name
    &&& forall|j: int| 0 <= j < i ==> names[j] != name
}

/// The first position of `name` in `names`, if it occurs at all.
pub open spec fn position_of(names: Seq<Seq<char>>, name: Seq<char>) -> Option<int> {
    if exists|i: int| is_first_named(names, name, i) {
        Some(choose|i: int| is_first_named(names, name, i))
    } else {
        None
    }
}

/// A first position is the first position.
pub proof fn lemma_position_found(names: Seq<Seq<char>>, name: Seq<char>, i: int)
    requires
        is_first_named(names, name, i),
    ensures
        position_of(names, name) == Some(i),
{
    let k = choose|k: int| is_first_named(names, name, k);
    assert(is_first_named(names, name, k));
    if k < i {
        assert(names[k] != name);
    }
    if i < k {
        assert(names[i] != name);
    }
}

/// A name that no entry holds has no first position.
pub proof fn lemma_position_absent(names: Seq<Seq<char>>, name: Seq<char>)
    requires
        forall|j: int| 0 <= j < names.len() ==> names[j] != name,
    ensures
        position_of(names, name) is None,
{
    assert forall|i: int| !is_first_named(names, name, i) by {
        if 0 <= i < names.len() {
            assert(names[i] != name);
        }
    }
}

/// What `position_of` says of its result.
pub proof fn lemma_position_of(names: Seq<Seq<char>>, name: Seq<char>)
    ensures
        match position_of(names, name) {
            Some(i) => is_first_named(names, name, i),
            None => forall|j: int| 0 <= j < names.len() ==> names[j] != name,
        },
{
    if exists|i: int| is_first_named(names, name, i) {
    } else {
        assert forall|j: int| 0 <= j < names.len() implies names[j] != name by {
            if names[j] == name {
                lemma_some_first(names, name, j);
            }
        }
    }
}

/// The first position of a name once another name has been appended.
pub proof fn lemma_position_push(names: Seq<Seq<char>>, added: Seq<char>, name: Seq<char>)
    ensures
        position_of(names.push(added), name) == match position_of(names, name) {
            Some(i) => Some(i),
            None => if name == added {
                Some(names.len() as int)
            } else {
                None
            },
        },
{
    let longer = names.push(added);
    lemma_position_of(names, name);
    match position_of(names, name) {
        Some(i) => {
            assert(is_first_named(longer, name, i));
            lemma_position_found(longer, name, i);
        },
        None => {
            if name == added {
                assert(is_first_named(longer, name, names.len() as int));
                lemma_position_found(longer, name, names.len() as int);
            } else {
                lemma_position_absent(longer, name);
            }
        },
    }
}

/// Where a name occurs, it has a first occurrence.
pub proof fn lemma_some_first(names: Seq<Seq<char>>, name: Seq<char>, j: int)
    requires
        0 <= j < names.len(),
        names[j] == name,
    ensures
        exists|i: int| is_first_named(names, name, i) && i <= j,
    decreases j,
{
    if forall|k: int| 0 <= k < j ==> names[k] != name {
        assert(is_first_named(names, name, j));
    } else {
        let k = choose|k: int| 0 <= k < j && names[k] == name;
        lemma_some_first(names, name, k);
    }
}

/// A name is among `names` where it is among the earlier ones or is the last.
pub proof fn lemma_contains_last(names: Seq<Seq<char>>, name: Seq<char>)
    requires
        names.len() > 0,
    ensures
        names.contains(name) <==> names.drop_last().contains(name) || names.last() == name,
{
    let earlier = names.drop_last();
    if earlier.contains(name) {
        let j = choose|j: int| 0 <= j < earlier.len() && earlier[j] == name;
        assert(names[j] == name);
    }
    if names.contains(name) {
        let j = choose|j: int| 0 <= j < names.len() && names[j] == name;
        if j < names.len() - 1 {
            assert(earlier[j] == name);
        }
    }
}

/// The position of the first item that goes by `name`.
pub fn first_named<T: Named>(items: &Vec<T>, name: &str) -> (r: Option<usize>)
    ensures
        match r {
            Some(i) => i < items.len() && position_of(names_of(items@), name@) == Some(i as int),
            None => position_of(names_of(items@), name@) is None,
        },
{
    let wanted = String::from_str(name);
    let ghost names = names_of(items@);
    let mut i: usize = 0;
    while i < items.len()
        invariant
            i <= items.len(),
            wanted@ == name@,
            names == names_of(items@),
            forall|j: int| 0 <= j < i ==> names[j] != name@,
        decreases items.len() - i,
    {
        if *items[i].named() == wanted {
            proof {
                lemma_position_found(names, name@, i as int);
            }
            return Some(i);
        }
        i += 1;
    }
    proof {
        lemma_position_absent(names, name@);
    }
    None
}

} // verus!
