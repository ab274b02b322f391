//! A set of keys, kept in order and without repetition.

use vstd::prelude::*;

use crate::text::{before, comes_before, copy_texts, same_text, texts};
use crate::text::{order_is_total, order_is_transitive};

verus! {

/// Each key comes before the next, so none occurs twice.
pub open spec fn ascending(keys: Seq<Seq<char>>) -> bool {
    forall|i: int, j: int| 0 <= i < j < keys.len() ==> before(#[trigger] keys[i], #[trigger] keys[j])
}

/// A set of keys, read in ascending order.
#[derive(Debug, PartialEq, Eq)]
pub struct KeySet {
    keys: Vec<String>,
}

impl View for KeySet {
    type V = Seq<Seq<char>>;

    closed spec fn view(&self) -> Seq<Seq<char>> {
        texts(self.keys@)
    }
}

impl KeySet {
    #[verifier::type_invariant]
    spec fn in_order(self) -> bool {
        ascending(texts(self.keys@))
    }

    /// The set without members.
    pub fn new() -> (set: KeySet)
        ensures
            set@ == Seq::<Seq<char>>::empty(),
    {
        let set = KeySet { keys: Vec::new() };
        assert(set@ =~= Seq::empty());
        set
    }

    /// The set of the keys in a list.
    pub fn of(list: &Vec<String>) -> (set: KeySet)
        ensures
            ascending(set@),
            forall|k: Seq<char>| set@.contains(k) <==> texts(list@).contains(k),
    {
        let mut set = KeySet::new();
        for i in 0..list.len()
            invariant
                ascending(set@),
                forall|k: Seq<char>| set@.contains(k) <==> texts(list@.take(i as int)).contains(k),
        {
            let ghost earlier = texts(list@.take(i as int));
            let ghost longer = texts(list@.take(i + 1));
            assert(longer =~= earlier.push(list@[i as int]@));
            assert forall|k: Seq<char>| longer.contains(k) <==> earlier.contains(k) || k
                == list@[i as int]@ by {
                if earlier.contains(k) {
                    let at = choose|at: int| 0 <= at < earlier.len() && earlier[at] == k;
                    assert(longer[at] == k);
                }
                assert(longer[earlier.len() as int] == list@[i as int]@);
            }
            set = set.with(list[i].clone());
        }
        assert(list@.take(list.len() as int) =~= list@);
        set
    }

    /// The set with one more key.
    pub fn with(self, key: String) -> (set: KeySet)
        ensures
            ascending(set@),
            forall|k: Seq<char>| set@.contains(k) <==> self@.contains(k) || k == key@,
    {
        proof {
            use_type_invariant(&self);
        }
        let mut at: usize = 0;
        let ghost held = self@;
        while at < self.keys.len() && comes_before(self.keys[at].as_str(), key.as_str())
            invariant
                at <= self.keys.len(),
                held == texts(self.keys@),
                forall|i: int| 0 <= i < at ==> before(#[trigger] held[i], key@),
            decreases self.keys.len() - at,
        {
            assert(held[at as int] == self.keys@[at as int]@);
            at = at + 1;
        }
        if at < self.keys.len() && same_text(self.keys[at].as_str(), key.as_str()) {
            assert(held[at as int] == key@);
            return self;
        }
        let mut keys: Vec<String> = Vec::new();
        for i in 0..at
            invariant
                at <= self.keys.len(),
                keys@ == self.keys@.take(i as int),
        {
            keys.push(self.keys[i].clone());
        }
        let ghost name = key@;
        keys.push(key);
        for i in at..self.keys.len()
            invariant
                at <= self.keys.len(),
                keys@ == self.keys@.take(at as int).push(key) + self.keys@.subrange(
                    at as int,
                    i as int,
                ),
        {
            keys.push(self.keys[i].clone());
        }
        proof {
            let grown = texts(keys@);
            assert(keys@ =~= self.keys@.take(at as int).push(key) + self.keys@.skip(at as int));
            assert(grown =~= held.take(at as int).push(name) + held.skip(at as int));
            if at < held.len() {
                assert(held[at as int] == self.keys@[at as int]@);
                order_is_total(held[at as int], name);
            }
            assert forall|i: int, j: int| 0 <= i < j < grown.len() implies before(
                #[trigger] grown[i],
                #[trigger] grown[j],
            ) by {
                if i == at {
                    if j - 1 > at {
                        order_is_transitive(name, held[at as int], held[j - 1]);
                    }
                } else if j == at {
                    assert(before(held[i], name));
                }
            }
            assert forall|k: Seq<char>| grown.contains(k) <==> held.contains(k) || k == name by {
                if held.contains(k) {
                    let p = choose|p: int| 0 <= p < held.len() && held[p] == k;
                    if p < at {
                        assert(grown[p] == k);
                    } else {
                        assert(grown[p + 1] == k);
                    }
                }
                assert(grown[at as int] == name);
                if grown.contains(k) {
                    let p = choose|p: int| 0 <= p < grown.len() && grown[p] == k;
                    if p < at {
                        assert(held[p] == k);
                    } else if p > at {
                        assert(held[p - 1] == k);
                    }
                }
            }
        }
        KeySet { keys }
    }

    /// Whether the set has no members.
    pub fn is_empty(&self) -> (empty: bool)
        ensures
            empty == (self@.len() == 0),
    {
        self.keys.len() == 0
    }

    /// How many members the set has.
    pub fn len(&self) -> (count: usize)
        ensures
            count == self@.len(),
    {
        self.keys.len()
    }

    /// The members in ascending order.
    pub fn list(&self) -> (keys: &Vec<String>)
        ensures
            texts(keys@) == self@,
            ascending(self@),
    {
        proof {
            use_type_invariant(self);
        }
        &self.keys
    }
}

impl Clone for KeySet {
    /// The same set again.
    fn clone(&self) -> (set: KeySet)
        ensures
            set@ == self@,
    {
        proof {
            use_type_invariant(self);
        }
        KeySet { keys: copy_texts(&self.keys) }
    }
}

/// Ascending lists with the same members are the same list: the order leaves
/// nothing to choose.
pub proof fn members_determine_the_order(a: Seq<Seq<char>>, b: Seq<Seq<char>>)
    requires
        ascending(a),
        ascending(b),
        forall|k: Seq<char>| a.contains(k) <==> b.contains(k),
    ensures
        a == b,
    decreases a.len(),
{
    if a.len() == 0 {
        if b.len() > 0 {
            assert(b.contains(b[0]));
        }
        assert(a =~= b);
    } else {
        assert(a.contains(a.last()));
        let p = choose|p: int| 0 <= p < b.len() && b[p] == a.last();
        assert(b.contains(b.last()));
        let q = choose|q: int| 0 <= q < a.len() && a[q] == b.last();
        if p < b.len() - 1 {
            // b's last follows a's last, so it cannot be in a.
            assert(before(b[p], b[b.len() - 1]));
            if q < a.len() - 1 {
                assert(before(a[q], a[a.len() - 1]));
            }
            order_is_total(a.last(), b.last());
            assert(false);
        }
        let (a1, b1) = (a.drop_last(), b.drop_last());
        assert forall|k: Seq<char>| a1.contains(k) <==> b1.contains(k) by {
            order_is_total(k, k);
            if a1.contains(k) {
                let i = choose|i: int| 0 <= i < a1.len() && a1[i] == k;
                assert(a[i] == k && before(a[i], a[a.len() - 1]));
                assert(a.contains(k));
                let j = choose|j: int| 0 <= j < b.len() && b[j] == k;
                assert(b1[j] == k);
            }
            if b1.contains(k) {
                let i = choose|i: int| 0 <= i < b1.len() && b1[i] == k;
                assert(b[i] == k && before(b[i], b[b.len() - 1]));
                assert(b.contains(k));
                let j = choose|j: int| 0 <= j < a.len() && a[j] == k;
                assert(a1[j] == k);
            }
        }
        members_determine_the_order(a1, b1);
        assert(a =~= a1.push(a.last()));
        assert(b =~= b1.push(b.last()));
    }
}

/// Keys in ascending order: none is there twice, and each comes before those
/// behind it.
pub proof fn ascending_keys_do_not_repeat(keys: Seq<Seq<char>>)
    requires
        ascending(keys),
    ensures
        keys.no_duplicates(),
        forall|i: int, j: int|
            0 <= i < j < keys.len() ==> before(#[trigger] keys[i], #[trigger] keys[j]),
{
    assert forall|i: int, j: int|
        0 <= i < keys.len() && 0 <= j < keys.len() && i != j implies keys[i] != keys[j] by {
        order_is_total(keys[i], keys[i]);
        if i < j {
            assert(before(keys[i], keys[j]));
        } else {
            assert(before(keys[j], keys[i]));
        }
    }
}

} // verus!
