//! The registry of signed-in users: a set of names, kept in ascending order.

use vstd::prelude::*;
use crate::order::Rank;
use crate::order::name_less;
use crate::order::rank_names;
use crate::order::lemma_name_less_asymmetric;
use crate::order::lemma_name_less_transitive;

verus! {

/// The names that a sequence of strings spells, in the same order.
pub open spec fn names_of(strings: Seq<String>) -> Seq<Seq<char>> {
    strings.map_values(|s: String| s@)
}

/// Each name comes strictly before every later one.
pub open spec fn ascending(names: Seq<Seq<char>>) -> bool {
    forall|i: int, j: int| 0 <= i < j < names.len() ==> name_less(names[i], names[j])
}

/// `names` is the listing of `set`: in ascending order, and holding the names
/// of `set` and no others.
pub open spec fn lists_in_order(names: Seq<Seq<char>>, set: Set<Seq<char>>) -> bool {
    &&& ascending(names)
    &&& forall|name: Seq<char>| set.contains(name) <==> names.contains(name)
}

/// The registry that results from `start` when the names of `adds` are added
/// one after another.
pub open spec fn added_all(start: Set<Seq<char>>, adds: Seq<Seq<char>>) -> Set<Seq<char>>
    decreases adds.len(),
{
    if adds.len() == 0 {
        start
    } else {
        added_all(start, adds.drop_last()).insert(adds.last())
    }
}

/// Putting `name` where it belongs keeps a listing in order, and adds `name`
/// to what it lists.
proof fn lemma_insert_in_place(names: Seq<Seq<char>>, at: int, name: Seq<char>)
    requires
        ascending(names),
        0 <= at <= names.len(),
        forall|i: int| 0 <= i < at ==> name_less(names[i], name),
        forall|j: int| at <= j < names.len() ==> name_less(name, names[j]),
    ensures
        ascending(names.insert(at, name)),
        names.insert(at, name).to_set() == names.to_set().insert(name),
{
    let longer = names.insert(at, name);
    assert forall|i: int, j: int| 0 <= i < j < longer.len() implies name_less(
        longer[i],
        longer[j],
    ) by {
        if i < at && j > at {
            assert(longer[j] == names[j - 1]);
        } else if i < at && j < at {
        } else if i >= at && i > at {
            assert(longer[i] == names[i - 1]);
            assert(longer[j] == names[j - 1]);
        } else if i == at {
            assert(longer[j] == names[j - 1]);
        }
    }
    assert forall|n: Seq<char>| longer.to_set().contains(n) <==> names.to_set().insert(
        name,
    ).contains(n) by {
        if longer.contains(n) {
            let k = choose|k: int| 0 <= k < longer.len() && longer[k] == n;
            if k < at {
                assert(names[k] == n);
            } else if k > at {
                assert(names[k - 1] == n);
            }
        }
        if names.contains(n) {
            let k = choose|k: int| 0 <= k < names.len() && names[k] == n;
            if k < at {
                assert(longer[k] == n);
            } else {
                assert(longer[k + 1] == n);
            }
        }
        if n == name {
            assert(longer[at] == n);
        }
    }
    assert(longer.to_set() =~= names.to_set().insert(name));
}

/// The names of all users who have signed in.
#[derive(Debug)]
pub struct Users {
    names: Vec<String>,
}

impl View for Users {
    type V = Set<Seq<char>>;

    closed spec fn view(&self) -> Set<Seq<char>> {
        names_of(self.names@).to_set()
    }
}

impl Users {
    #[verifier::type_invariant]
    spec fn in_order(&self) -> bool {
        ascending(names_of(self.names@))
    }

    /// A registry that holds nobody.
    pub fn new() -> (users: Self)
        ensures
            users@ == Set::<Seq<char>>::empty(),
    {
        let users = Users { names: Vec::new() };
        assert(names_of(users.names@).to_set() =~= Set::<Seq<char>>::empty());
        users
    }

    /// Where `user` stands among the names: the index of the first name that
    /// does not come before it, and whether that name is `user` itself.
    fn place(&self, user: &str) -> (found: (usize, bool))
        ensures
            found.0 <= self.names.len(),
            forall|i: int| 0 <= i < found.0 ==> name_less(self.names[i]@, user@),
            found.1 ==> found.0 < self.names.len() && self.names[found.0 as int]@ == user@,
            !found.1 ==> forall|j: int|
                found.0 <= j < self.names.len() ==> name_less(user@, self.names[j]@),
    {
        proof {
            use_type_invariant(self);
        }
        let mut at: usize = 0;
        while at < self.names.len()
            invariant
                at <= self.names.len(),
                ascending(names_of(self.names@)),
                forall|i: int| 0 <= i < at ==> name_less(self.names[i]@, user@),
            decreases self.names.len() - at,
        {
            match rank_names(self.names[at].as_str(), user) {
                Rank::Before => {
                    at += 1;
                },
                Rank::Same => {
                    return (at, true);
                },
                Rank::After => {
                    assert forall|j: int| at <= j < self.names.len() implies name_less(
                        user@,
                        self.names[j]@,
                    ) by {
                        if at < j {
                            assert(name_less(
                                names_of(self.names@)[at as int],
                                names_of(self.names@)[j],
                            ));
                            lemma_name_less_transitive(user@, self.names[at as int]@, self.names[j]@);
                        }
                    }
                    return (at, false);
                },
            }
        }
        (at, false)
    }

    /// Registers `user`. Registering a name a second time changes nothing.
    pub fn add_user(&mut self, user: &str)
        ensures
            final(self)@ == old(self)@.insert(user@),
    {
        let (at, present) = self.place(user);
        proof {
            use_type_invariant(&*self);
        }
        if present {
            proof {
                let names = names_of(self.names@);
                assert(names[at as int] == user@);
                assert(names.to_set().contains(user@));
                assert(names.to_set().insert(user@) =~= names.to_set());
            }
        } else {
            let name = user.to_owned();
            proof {
                let names = names_of(self.names@);
                assert forall|i: int| 0 <= i < at implies name_less(names[i], name@) by {
                    assert(names[i] == self.names[i]@);
                }
                assert forall|j: int| at <= j < names.len() implies name_less(name@, names[j]) by {
                    assert(names[j] == self.names[j]@);
                }
                lemma_insert_in_place(names, at as int, name@);
                assert(names_of(self.names@.insert(at as int, name)) =~= names.insert(
                    at as int,
                    name@,
                ));
            }
            // The names are taken out to be changed and put back in order, so
            // that the registry is in order at every moment.
            let mut names: Vec<String> = Vec::new();
            core::mem::swap(&mut self.names, &mut names);
            names.insert(at, name);
            self.names = names;
        }
    }

    /// All registered names, each once, in ascending order.
    pub fn list(&self) -> (names: Vec<String>)
        ensures
            lists_in_order(names_of(names@), self@),
            names_of(names@).no_duplicates(),
            names.len() == self@.len(),
    {
        proof {
            use_type_invariant(self);
        }
        let names = self.names.clone();
        proof {
            assert(names_of(names@) =~= names_of(self.names@));
            lemma_listing_shows_each_once(names_of(names@), self@);
        }
        names
    }
}

/// A listing shows no name twice, and has as many entries as the registry has
/// names.
pub proof fn lemma_listing_shows_each_once(listing: Seq<Seq<char>>, set: Set<Seq<char>>)
    requires
        lists_in_order(listing, set),
    ensures
        listing.no_duplicates(),
        listing.to_set() == set,
        set.finite(),
        set.len() == listing.len(),
{
    assert forall|i: int, j: int| 0 <= i < listing.len() && 0 <= j < listing.len() && i
        != j implies listing[i] != listing[j] by {
        if i < j {
            lemma_name_less_asymmetric(listing[i], listing[j]);
        } else {
            lemma_name_less_asymmetric(listing[j], listing[i]);
        }
    }
    assert(listing.to_set() =~= set);
    listing.unique_seq_to_set();
}

/// Without its first name, a listing lists the set without that name.
proof fn lemma_rest_of_listing(listing: Seq<Seq<char>>, set: Set<Seq<char>>)
    requires
        lists_in_order(listing, set),
        listing.len() > 0,
    ensures
        lists_in_order(listing.drop_first(), set.remove(listing[0])),
{
    let rest = listing.drop_first();
    assert forall|i: int, j: int| 0 <= i < j < rest.len() implies name_less(rest[i], rest[j]) by {
        assert(name_less(listing[i + 1], listing[j + 1]));
    }
    assert forall|name: Seq<char>| set.remove(listing[0]).contains(name) <==> rest.contains(
        name,
    ) by {
        if rest.contains(name) {
            let k = choose|k: int| 0 <= k < rest.len() && rest[k] == name;
            assert(listing[k + 1] == name);
            lemma_name_less_asymmetric(listing[0], listing[k + 1]);
        }
        if set.contains(name) && name != listing[0] {
            let k = choose|k: int| 0 <= k < listing.len() && listing[k] == name;
            assert(rest[k - 1] == name);
        }
    }
}

/// A set of names has one listing and no other: what `list` returns is
/// determined by what the registry holds.
pub proof fn lemma_listing_is_unique(
    first: Seq<Seq<char>>,
    second: Seq<Seq<char>>,
    set: Set<Seq<char>>,
)
    requires
        lists_in_order(first, set),
        lists_in_order(second, set),
    ensures
        first == second,
    decreases first.len(),
{
    lemma_listing_shows_each_once(first, set);
    lemma_listing_shows_each_once(second, set);
    if first.len() == 0 {
        assert(first =~= second);
    } else {
        let a = first[0];
        let b = second[0];
        if a != b {
            assert(first.contains(a));
            assert(second.contains(b));
            let j = choose|j: int| 0 <= j < second.len() && second[j] == a;
            let k = choose|k: int| 0 <= k < first.len() && first[k] == b;
            assert(name_less(second[0], second[j]));
            assert(name_less(first[0], first[k]));
            lemma_name_less_asymmetric(a, b);
        }
        lemma_rest_of_listing(first, set);
        lemma_rest_of_listing(second, set);
        lemma_listing_is_unique(first.drop_first(), second.drop_first(), set.remove(a));
        assert(first =~= seq![a] + first.drop_first());
        assert(second =~= seq![b] + second.drop_first());
    }
}

/// Whatever names are added to a registry, in whatever order and however
/// often, it then holds each of them, and what it held before, and nothing
/// else.
pub proof fn lemma_added_all_holds_each(start: Set<Seq<char>>, adds: Seq<Seq<char>>)
    ensures
        added_all(start, adds) == start.union(adds.to_set()),
    decreases adds.len(),
{
    if adds.len() == 0 {
        assert(adds.to_set() =~= Set::<Seq<char>>::empty());
        assert(added_all(start, adds) =~= start.union(adds.to_set()));
    } else {
        let front = adds.drop_last();
        lemma_added_all_holds_each(start, front);
        assert forall|n: Seq<char>| adds.to_set().contains(n) <==> (front.to_set().contains(n)
            || n == adds.last()) by {
            if adds.contains(n) {
                let k = choose|k: int| 0 <= k < adds.len() && adds[k] == n;
                if k < adds.len() - 1 {
                    assert(front[k] == n);
                }
            }
            if front.contains(n) {
                let k = choose|k: int| 0 <= k < front.len() && front[k] == n;
                assert(adds[k] == n);
            }
            if n == adds.last() {
                assert(adds[adds.len() - 1] == n);
            }
        }
        assert(added_all(start, adds) =~= start.union(adds.to_set()));
    }
}

/// After any sequence of additions to an empty registry, duplicates included,
/// the listing shows each distinct name exactly once, in ascending order.
pub proof fn lemma_listing_after_adds(adds: Seq<Seq<char>>, listing: Seq<Seq<char>>)
    requires
        lists_in_order(listing, added_all(Set::empty(), adds)),
    ensures
        ascending(listing),
        listing.no_duplicates(),
        forall|name: Seq<char>| adds.contains(name) <==> listing.contains(name),
{
    lemma_added_all_holds_each(Set::empty(), adds);
    lemma_listing_shows_each_once(listing, added_all(Set::empty(), adds));
    assert forall|name: Seq<char>| adds.contains(name) <==> listing.contains(name) by {
        assert(adds.to_set().contains(name) <==> adds.contains(name));
    }
}

} // verus!
