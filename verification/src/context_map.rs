// The contexts that a session has confirmed: a map from a context's name to
// a flag, held as a list of pairs in which no name occurs twice.

use vstd::prelude::*;
use vstd::string::*;

verus! {

/// The map that a list of pairs stands for. Where a name occurs more than
/// once, the pair that comes last decides.
pub open spec fn pairs_to_map(pairs: Seq<(Seq<char>, bool)>) -> Map<Seq<char>, bool>
    decreases pairs.len(),
{
    if pairs.len() == 0 {
        Map::empty()
    } else {
        pairs_to_map(pairs.drop_last()).insert(pairs.last().0, pairs.last().1)
    }
}

/// No name occurs in two pairs.
pub open spec fn distinct_keys(pairs: Seq<(Seq<char>, bool)>) -> bool {
    forall|i: int, j: int| 0 <= i < j < pairs.len() ==> (#[trigger] pairs[i]).0 != (#[trigger] pairs[j]).0
}

/// A name that no pair holds is not in the map.
proof fn lemma_absent_key(pairs: Seq<(Seq<char>, bool)>, key: Seq<char>)
    requires
        forall|i: int| 0 <= i < pairs.len() ==> (#[trigger] pairs[i]).0 != key,
    ensures
        !pairs_to_map(pairs).contains_key(key),
    decreases pairs.len(),
{
    if pairs.len() > 0 {
        let front = pairs.drop_last();
        assert forall|i: int| 0 <= i < front.len() implies (#[trigger] front[i]).0 != key by {
            assert(front[i] == pairs[i]);
        }
        lemma_absent_key(front, key);
        assert(pairs.last() == pairs[pairs.len() - 1]);
    }
}

/// Where no name occurs twice, each pair's name is mapped to its flag.
proof fn lemma_present_key(pairs: Seq<(Seq<char>, bool)>, at: int)
    requires
        distinct_keys(pairs),
        0 <= at < pairs.len(),
    ensures
        pairs_to_map(pairs).contains_key(pairs[at].0),
        pairs_to_map(pairs)[pairs[at].0] == pairs[at].1,
    decreases pairs.len(),
{
    let front = pairs.drop_last();
    if at < pairs.len() - 1 {
        assert forall|i: int, j: int| 0 <= i < j < front.len() implies (#[trigger] front[i]).0 != (
        #[trigger] front[j]).0 by {
            assert(front[i] == pairs[i]);
            assert(front[j] == pairs[j]);
        }
        lemma_present_key(front, at);
        assert(front[at] == pairs[at]);
        assert(pairs[at].0 != pairs[pairs.len() - 1].0);
    }
}

/// Where no name occurs twice, giving one pair a new flag changes the map
/// as an insertion under that pair's name does.
proof fn lemma_replaced_flag(pairs: Seq<(Seq<char>, bool)>, at: int, flag: bool)
    requires
        distinct_keys(pairs),
        0 <= at < pairs.len(),
    ensures
        pairs_to_map(pairs.update(at, (pairs[at].0, flag))) == pairs_to_map(pairs).insert(
            pairs[at].0,
            flag,
        ),
        distinct_keys(pairs.update(at, (pairs[at].0, flag))),
    decreases pairs.len(),
{
    let changed = pairs.update(at, (pairs[at].0, flag));
    let front = pairs.drop_last();
    assert forall|i: int, j: int| 0 <= i < j < changed.len() implies (#[trigger] changed[i]).0 != (
    #[trigger] changed[j]).0 by {
        assert(changed[i].0 == pairs[i].0);
        assert(changed[j].0 == pairs[j].0);
    }
    if at == pairs.len() - 1 {
        assert(changed.drop_last() =~= front);
        assert(pairs_to_map(changed) =~= pairs_to_map(pairs).insert(pairs[at].0, flag));
    } else {
        assert forall|i: int, j: int| 0 <= i < j < front.len() implies (#[trigger] front[i]).0 != (
        #[trigger] front[j]).0 by {
            assert(front[i] == pairs[i]);
            assert(front[j] == pairs[j]);
        }
        lemma_replaced_flag(front, at, flag);
        assert(front[at] == pairs[at]);
        assert(changed.drop_last() =~= front.update(at, (pairs[at].0, flag)));
        assert(changed.last() == pairs.last());
        assert(pairs[at].0 != pairs[pairs.len() - 1].0);
        assert(pairs_to_map(changed) =~= pairs_to_map(pairs).insert(pairs[at].0, flag));
    }
}

/// Where no name occurs twice, every pair of the first list that the second
/// holds too is mapped alike by both.
proof fn lemma_shared_pairs_agree(
    first: Seq<(Seq<char>, bool)>,
    second: Seq<(Seq<char>, bool)>,
    key: Seq<char>,
)
    requires
        distinct_keys(first),
        distinct_keys(second),
        forall|pair: (Seq<char>, bool)| first.contains(pair) ==> second.contains(pair),
        pairs_to_map(first).contains_key(key),
    ensures
        pairs_to_map(second).contains_key(key),
        pairs_to_map(second)[key] == pairs_to_map(first)[key],
{
    if forall|i: int| 0 <= i < first.len() ==> (#[trigger] first[i]).0 != key {
        lemma_absent_key(first, key);
    }
    let i = choose|i: int| 0 <= i < first.len() && (#[trigger] first[i]).0 == key;
    lemma_present_key(first, i);
    assert(first.contains(first[i]));
    let j = choose|j: int| 0 <= j < second.len() && second[j] == first[i];
    lemma_present_key(second, j);
}

/// The order of the pairs is of no account: two lists that hold the same
/// pairs, each name once, stand for the same map. So a list that
/// `ContextMap::entries` gave can be stored without its order and, put
/// together again in whatever order, be read back by
/// `ContextMap::from_entries` as the map it was taken from.
pub proof fn lemma_order_of_pairs_is_irrelevant(
    first: Seq<(Seq<char>, bool)>,
    second: Seq<(Seq<char>, bool)>,
)
    requires
        distinct_keys(first),
        distinct_keys(second),
        forall|pair: (Seq<char>, bool)| first.contains(pair) <==> second.contains(pair),
    ensures
        pairs_to_map(first) == pairs_to_map(second),
{
    let left = pairs_to_map(first);
    let right = pairs_to_map(second);
    assert forall|key: Seq<char>| #[trigger] left.dom().contains(key) == right.dom().contains(
        key,
    ) by {
        if left.contains_key(key) {
            lemma_shared_pairs_agree(first, second, key);
        }
        if right.contains_key(key) {
            lemma_shared_pairs_agree(second, first, key);
        }
    }
    assert forall|key: Seq<char>| #[trigger] left.dom().contains(key) implies left[key]
        == right[key] by {
        lemma_shared_pairs_agree(first, second, key);
    }
    assert(left =~= right);
}

/// The confirmed contexts of a session, by name.
#[derive(Debug)]
pub struct ContextMap {
    entries: Vec<(String, bool)>,
}

impl View for ContextMap {
    type V = Map<Seq<char>, bool>;

    closed spec fn view(&self) -> Map<Seq<char>, bool> {
        pairs_to_map(self.entries.deep_view())
    }
}

impl ContextMap {
    #[verifier::type_invariant]
    spec fn no_name_twice(&self) -> bool {
        distinct_keys(self.entries.deep_view())
    }

    /// A map without entries.
    pub fn new() -> (map: ContextMap)
        ensures
            map@ == Map::<Seq<char>, bool>::empty(),
    {
        let entries: Vec<(String, bool)> = Vec::new();
        assert(entries.deep_view() =~= Seq::<(Seq<char>, bool)>::empty());
        ContextMap { entries }
    }

    /// The place of `key` among the entries, if it has one.
    fn position(&self, key: &String) -> (found: Option<usize>)
        ensures
            match found {
                Some(at) => at < self.entries.len() && self.entries.deep_view()[at as int].0
                    == key@,
                None => forall|i: int|
                    0 <= i < self.entries.len() ==> (#[trigger] self.entries.deep_view()[i]).0
                        != key@,
            },
    {
        let ghost pairs = self.entries.deep_view();
        let mut i: usize = 0;
        while i < self.entries.len()
            invariant
                i <= self.entries.len(),
                pairs == self.entries.deep_view(),
                forall|j: int| 0 <= j < i ==> (#[trigger] pairs[j]).0 != key@,
            decreases self.entries.len() - i,
        {
            assert(pairs[i as int].0 == self.entries@[i as int].0@);
            if self.entries[i].0 == *key {
                return Some(i);
            }
            i += 1;
        }
        None
    }

    /// The flag stored under `key`, if there is one.
    pub fn get(&self, key: &str) -> (flag: Option<bool>)
        ensures
            flag == if self@.contains_key(key@) {
                Some(self@[key@])
            } else {
                None
            },
    {
        let owned = key.to_owned();
        let ghost pairs = self.entries.deep_view();
        match self.position(&owned) {
            Some(at) => {
                proof {
                    use_type_invariant(self);
                    lemma_present_key(pairs, at as int);
                    assert(pairs[at as int].1 == self.entries@[at as int].1);
                }
                Some(self.entries[at].1)
            },
            None => {
                proof {
                    lemma_absent_key(pairs, key@);
                }
                None
            },
        }
    }

    /// Stores `flag` under `key`, in place of what was stored there.
    pub fn insert(&mut self, key: String, flag: bool)
        ensures
            final(self)@ == old(self)@.insert(key@, flag),
    {
        let ghost pairs = self.entries.deep_view();
        proof {
            use_type_invariant(&*self);
        }
        let found = self.position(&key);
        let ghost name = key@;
        let mut entries: Vec<(String, bool)> = Vec::new();
        assert(entries.deep_view() =~= Seq::<(Seq<char>, bool)>::empty());
        core::mem::swap(&mut self.entries, &mut entries);
        match found {
            Some(at) => {
                entries.set(at, (key, flag));
                proof {
                    lemma_replaced_flag(pairs, at as int, flag);
                    assert(entries.deep_view() =~= pairs.update(at as int, (name, flag)));
                }
            },
            None => {
                entries.push((key, flag));
                proof {
                    let grown = entries.deep_view();
                    assert(grown =~= pairs.push((name, flag)));
                    assert(grown.drop_last() =~= pairs);
                    assert forall|i: int, j: int| 0 <= i < j < grown.len() implies (
                    #[trigger] grown[i]).0 != (#[trigger] grown[j]).0 by {
                        assert(grown[i] == pairs[i]);
                        if j < pairs.len() {
                            assert(grown[j] == pairs[j]);
                        }
                    }
                }
            },
        }
        core::mem::swap(&mut self.entries, &mut entries);
    }

    /// The entries as a list of pairs in which no name occurs twice.
    pub fn entries(&self) -> (pairs: Vec<(String, bool)>)
        ensures
            pairs_to_map(pairs.deep_view()) == self@,
            distinct_keys(pairs.deep_view()),
    {
        proof {
            use_type_invariant(self);
        }
        let mut pairs: Vec<(String, bool)> = Vec::new();
        let mut i: usize = 0;
        while i < self.entries.len()
            invariant
                i <= self.entries.len(),
                pairs.len() == i,
                forall|j: int|
                    0 <= j < i ==> (#[trigger] pairs.deep_view()[j]) == self.entries.deep_view()[j],
            decreases self.entries.len() - i,
        {
            let ghost held = pairs.deep_view();
            let name = self.entries[i].0.clone();
            pairs.push((name, self.entries[i].1));
            assert forall|j: int| 0 <= j < i + 1 implies (#[trigger] pairs.deep_view()[j])
                == self.entries.deep_view()[j] by {
                if j < i {
                    assert(pairs.deep_view()[j] == held[j]);
                }
            }
            i += 1;
        }
        assert(pairs.deep_view() =~= self.entries.deep_view());
        pairs
    }

    /// The map that a list of pairs stands for.
    pub fn from_entries(pairs: &Vec<(String, bool)>) -> (map: ContextMap)
        ensures
            map@ == pairs_to_map(pairs.deep_view()),
    {
        let ghost all = pairs.deep_view();
        let mut map = ContextMap::new();
        let mut i: usize = 0;
        assert(all.subrange(0, 0) =~= Seq::<(Seq<char>, bool)>::empty());
        while i < pairs.len()
            invariant
                i <= pairs.len(),
                all == pairs.deep_view(),
                map@ == pairs_to_map(all.subrange(0, i as int)),
            decreases pairs.len() - i,
        {
            let ghost upto = all.subrange(0, i + 1);
            assert(upto.drop_last() =~= all.subrange(0, i as int));
            assert(upto.last() == (pairs@[i as int].0@, pairs@[i as int].1));
            map.insert(pairs[i].0.clone(), pairs[i].1);
            i += 1;
        }
        assert(all.subrange(0, i as int) =~= all);
        map
    }
}

} // verus!
