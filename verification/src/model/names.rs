//! Sequences of names: the first pair of equal names, the first name that
//! another list holds too, and the last place at which a name stands.

use vstd::prelude::*;

verus! {

/// The names at `i` and at a later index `j` are equal.
pub open spec fn collide(names: Seq<Seq<char>>, i: int, j: int) -> bool {
    0 <= i < j < names.len() && names[i] == names[j]
}

/// Some name stands in `names` twice.
pub open spec fn has_collision(names: Seq<Seq<char>>) -> bool {
    exists|i: int, j: int| collide(names, i, j)
}

/// The pair `(i, j)` is met no later than `(a, b)` by a scan that takes first
/// indices in ascending order and, for each, second indices in ascending order.
pub open spec fn scanned_before(i: int, j: int, a: int, b: int) -> bool {
    i < a || (i == a && j <= b)
}

/// `(i, j)` is the first pair of equal names that such a scan meets.
pub open spec fn is_first_collision(names: Seq<Seq<char>>, i: int, j: int) -> bool {
    &&& collide(names, i, j)
    &&& forall|a: int, b: int| collide(names, a, b) ==> scanned_before(i, j, a, b)
}

/// The least index from `j` on whose name equals the name at `i`.
pub open spec fn partner_from(names: Seq<Seq<char>>, i: int, j: int) -> Option<int>
    decreases names.len() - j,
{
    if j < 0 || j >= names.len() {
        None
    } else if names[i] == names[j] {
        Some(j)
    } else {
        partner_from(names, i, j + 1)
    }
}

/// The first pair of equal names whose first index is `i` or more.
pub open spec fn first_collision_from(names: Seq<Seq<char>>, i: int) -> Option<(int, int)>
    decreases names.len() - i,
{
    if i < 0 || i >= names.len() {
        None
    } else {
        match partner_from(names, i, i + 1) {
            Some(j) => Some((i, j)),
            None => first_collision_from(names, i + 1),
        }
    }
}

/// The first pair of equal names in `names`, if any name stands there twice.
pub open spec fn first_collision(names: Seq<Seq<char>>) -> Option<(int, int)> {
    first_collision_from(names, 0)
}

/// The name at `i` of `local` stands in `other` too.
pub open spec fn shadows(local: Seq<Seq<char>>, other: Seq<Seq<char>>, i: int) -> bool {
    0 <= i < local.len() && other.contains(local[i])
}

/// The least index from `i` on of a name of `local` that `other` holds too.
pub open spec fn first_shadowing_from(local: Seq<Seq<char>>, other: Seq<Seq<char>>, i: int)
    -> Option<int>
    decreases local.len() - i,
{
    if i < 0 || i >= local.len() {
        None
    } else if other.contains(local[i]) {
        Some(i)
    } else {
        first_shadowing_from(local, other, i + 1)
    }
}

/// The least index of a name of `local` that `other` holds too.
pub open spec fn first_shadowing(local: Seq<Seq<char>>, other: Seq<Seq<char>>) -> Option<int> {
    first_shadowing_from(local, other, 0)
}

/// The greatest index at which `name` stands in `names`.
pub open spec fn last_index_of(names: Seq<Seq<char>>, name: Seq<char>) -> Option<int>
    decreases names.len(),
{
    if names.len() == 0 {
        None
    } else if names.last() == name {
        Some(names.len() - 1)
    } else {
        last_index_of(names.drop_last(), name)
    }
}

/// What `partner_from` finds is the nearest equal name, and where it finds
/// nothing there is none.
pub proof fn lemma_partner_from(names: Seq<Seq<char>>, i: int, j: int)
    requires
        0 <= j,
    ensures
        match partner_from(names, i, j) {
            Some(k) => j <= k < names.len() && names[i] == names[k] && forall|m: int|
                j <= m < k ==> names[i] != names[m],
            None => forall|m: int| j <= m < names.len() ==> names[i] != names[m],
        },
    decreases names.len() - j,
{
    if j < names.len() && names[i] != names[j] {
        lemma_partner_from(names, i, j + 1);
    }
}

/// What `first_collision_from` finds comes before every other pair of equal
/// names from `i` on, and where it finds nothing there is none.
pub proof fn lemma_first_collision_from(names: Seq<Seq<char>>, i: int)
    requires
        0 <= i,
    ensures
        match first_collision_from(names, i) {
            Some(p) => i <= p.0 && collide(names, p.0, p.1) && forall|a: int, b: int|
                i <= a && collide(names, a, b) ==> scanned_before(p.0, p.1, a, b),
            None => forall|a: int, b: int| i <= a ==> !collide(names, a, b),
        },
    decreases names.len() - i,
{
    if i < names.len() {
        lemma_partner_from(names, i, i + 1);
        if partner_from(names, i, i + 1) is None {
            lemma_first_collision_from(names, i + 1);
        }
    }
}

/// `first_collision` names the first pair of equal names exactly, and is `None`
/// exactly where all names differ.
pub proof fn lemma_first_collision(names: Seq<Seq<char>>)
    ensures
        first_collision(names) is None <==> !has_collision(names),
        first_collision(names) matches Some(p) ==> is_first_collision(names, p.0, p.1),
        forall|i: int, j: int|
            first_collision(names) == Some((i, j)) <==> is_first_collision(names, i, j),
{
    lemma_first_collision_from(names, 0);
    match first_collision(names) {
        Some(p) => {
            assert(collide(names, p.0, p.1));
            assert(is_first_collision(names, p.0, p.1));
            assert forall|i: int, j: int| is_first_collision(names, i, j) implies (i, j) == p by {
                assert(scanned_before(i, j, p.0, p.1));
                assert(scanned_before(p.0, p.1, i, j));
            }
        },
        None => {},
    }
}

/// `first_shadowing_from` finds the least index from `i` on whose name `other`
/// holds, and where it finds nothing there is none.
pub proof fn lemma_first_shadowing_from(local: Seq<Seq<char>>, other: Seq<Seq<char>>, i: int)
    requires
        0 <= i,
    ensures
        match first_shadowing_from(local, other, i) {
            Some(k) => i <= k && shadows(local, other, k) && forall|m: int|
                i <= m < k ==> !shadows(local, other, m),
            None => forall|m: int| i <= m ==> !shadows(local, other, m),
        },
    decreases local.len() - i,
{
    if i < local.len() && !other.contains(local[i]) {
        lemma_first_shadowing_from(local, other, i + 1);
    }
}

/// `last_index_of` finds the greatest index at which the name stands, and is
/// `None` exactly where the name does not stand in the list.
pub proof fn lemma_last_index_of(names: Seq<Seq<char>>, name: Seq<char>)
    ensures
        match last_index_of(names, name) {
            Some(k) => 0 <= k < names.len() && names[k] == name && forall|m: int|
                k < m < names.len() ==> names[m] != name,
            None => forall|m: int| 0 <= m < names.len() ==> names[m] != name,
        },
    decreases names.len(),
{
    if names.len() > 0 && names.last() != name {
        lemma_last_index_of(names.drop_last(), name);
        assert forall|m: int| 0 <= m < names.len() - 1 implies names[m] == names.drop_last()[m] by {}
    }
}

/// A declaration that goes by a name.
pub trait Named {
    /// The name, as a sequence of characters.
    spec fn name_view(&self) -> Seq<char>;

    /// The name.
    fn name_string(&self) -> (n: &String)
        ensures
            n@ == self.name_view(),
    ;
}

impl Named for String {
    open spec fn name_view(&self) -> Seq<char> {
        self@
    }

    fn name_string(&self) -> (n: &String) {
        self
    }
}

/// The names of `items`, in their order.
pub open spec fn names_of<T: Named>(items: Seq<T>) -> Seq<Seq<char>> {
    Seq::new(items.len(), |i: int| items[i].name_view())
}

/// Scanning one name further: the last index so far is replaced where the
/// new name matches, and kept where it does not.
pub proof fn lemma_last_index_of_step(names: Seq<Seq<char>>, name: Seq<char>, i: int)
    requires
        0 <= i < names.len(),
    ensures
        last_index_of(names.take(i + 1), name) == if names[i] == name {
            Some(i)
        } else {
            last_index_of(names.take(i), name)
        },
{
    assert(names.take(i + 1).drop_last() =~= names.take(i));
    assert(names.take(i + 1).last() == names[i]);
}

/// The first two of `items` that share a name, by pairwise comparison: first
/// indices in ascending order and, for each, the later indices in ascending
/// order.
pub fn find_collision<T: Named>(items: &Vec<T>) -> (r: Option<(usize, usize)>)
    ensures
        match r {
            Some((i, j)) => i < j < items.len() && first_collision(names_of(items@)) == Some(
                (i as int, j as int),
            ),
            None => first_collision(names_of(items@)) is None,
        },
{
    let ghost names = names_of(items@);
    let n = items.len();
    let mut i: usize = 0;
    while i < n
        invariant
            n == items.len(),
            names == names_of(items@),
            i <= n,
            forall|a: int, b: int| a < i ==> !collide(names, a, b),
        decreases n - i,
    {
        let mut j: usize = i + 1;
        while j < n
            invariant
                n == items.len(),
                names == names_of(items@),
                i < j <= n,
                forall|a: int, b: int| a < i ==> !collide(names, a, b),
                forall|b: int| b < j ==> !collide(names, i as int, b),
            decreases n - j,
        {
            if *items[i].name_string() == *items[j].name_string() {
                proof {
                    assert(collide(names, i as int, j as int));
                    assert(is_first_collision(names, i as int, j as int));
                    lemma_first_collision(names);
                }
                return Some((i, j));
            }
            j += 1;
        }
        i += 1;
    }
    proof {
        lemma_first_collision(names);
    }
    None
}

/// Whether some of `items` goes by `name`.
pub fn holds_name<T: Named>(items: &Vec<T>, name: &String) -> (r: bool)
    ensures
        r == names_of(items@).contains(name@),
{
    let ghost names = names_of(items@);
    let n = items.len();
    let mut k: usize = 0;
    while k < n
        invariant
            n == items.len(),
            names == names_of(items@),
            k <= n,
            forall|m: int| 0 <= m < k ==> names[m] != name@,
        decreases n - k,
    {
        if *items[k].name_string() == *name {
            assert(names[k as int] == name@);
            return true;
        }
        k += 1;
    }
    false
}

/// The first of `local` whose name one of `other` has too.
pub fn find_shadowing<T: Named, U: Named>(local: &Vec<T>, other: &Vec<U>) -> (r: Option<usize>)
    ensures
        match r {
            Some(i) => i < local.len() && first_shadowing(names_of(local@), names_of(other@))
                == Some(i as int),
            None => first_shadowing(names_of(local@), names_of(other@)) is None,
        },
{
    let ghost names = names_of(local@);
    let ghost others = names_of(other@);
    let n = local.len();
    let mut i: usize = 0;
    while i < n
        invariant
            n == local.len(),
            names == names_of(local@),
            others == names_of(other@),
            i <= n,
            forall|m: int| m < i ==> !shadows(names, others, m),
        decreases n - i,
    {
        if holds_name(other, local[i].name_string()) {
            proof {
                lemma_first_shadowing_from(names, others, 0);
                assert(shadows(names, others, i as int));
            }
            return Some(i);
        }
        i += 1;
    }
    proof {
        lemma_first_shadowing_from(names, others, 0);
    }
    None
}

/// The last of `items` that goes by `name`: every match replaces the one
/// before it.
pub fn find_last<T: Named>(items: &Vec<T>, name: &String) -> (r: Option<usize>)
    ensures
        match r {
            Some(i) => i < items.len() && last_index_of(names_of(items@), name@) == Some(
                i as int,
            ),
            None => last_index_of(names_of(items@), name@) is None,
        },
{
    let ghost names = names_of(items@);
    let n = items.len();
    let mut found: Option<usize> = None;
    let mut k: usize = 0;
    while k < n
        invariant
            n == items.len(),
            names == names_of(items@),
            k <= n,
            match found {
                Some(i) => i < k && last_index_of(names.take(k as int), name@) == Some(i as int),
                None => last_index_of(names.take(k as int), name@) is None,
            },
        decreases n - k,
    {
        proof {
            lemma_last_index_of_step(names, name@, k as int);
        }
        if *items[k].name_string() == *name {
            found = Some(k);
        }
        k += 1;
    }
    assert(names.take(n as int) =~= names);
    found
}

} // verus!
