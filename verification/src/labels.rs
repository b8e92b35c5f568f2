//! A label map: text keys, each with one text value.

use vstd::prelude::*;

verus! {

/// Labels, as they come with a policy object: a map from keys to values.
#[derive(Clone, Debug, Default, PartialEq, Eq, Hash)]
pub struct Labels {
    entries: Vec<(String, String)>,
}

/// The position of the first entry of `entries` whose key is `key`, or the
/// length of `entries` where there is none.
pub closed spec fn position_of(entries: Seq<(String, String)>, key: Seq<char>) -> int
    decreases entries.len(),
{
    if entries.len() == 0 {
        0
    } else if entries[0].0@ == key {
        0
    } else {
        1 + position_of(entries.drop_first(), key)
    }
}

proof fn lemma_position_of(entries: Seq<(String, String)>, key: Seq<char>)
    ensures
        0 <= position_of(entries, key) <= entries.len(),
        position_of(entries, key) < entries.len() ==> entries[position_of(entries, key)].0@ == key,
        forall|k: int| 0 <= k < position_of(entries, key) ==> (#[trigger] entries[k]).0@ != key,
    decreases entries.len(),
{
    if entries.len() > 0 && entries[0].0@ != key {
        let rest = entries.drop_first();
        lemma_position_of(rest, key);
        assert forall|k: int| 0 <= k < position_of(entries, key) implies (#[trigger] entries[k]).0@
            != key by {
            if k > 0 {
                assert(rest[k - 1] == entries[k]);
            }
        }
    }
}

impl View for Labels {
    type V = Map<Seq<char>, Seq<char>>;

    closed spec fn view(&self) -> Map<Seq<char>, Seq<char>> {
        Map::new(
            |key: Seq<char>| position_of(self.entries@, key) < self.entries@.len(),
            |key: Seq<char>| self.entries@[position_of(self.entries@, key)].1@,
        )
    }
}

impl Labels {
    /// No labels.
    pub fn new() -> (r: Labels)
        ensures
            r@ == Map::<Seq<char>, Seq<char>>::empty(),
    {
        let r = Labels { entries: Vec::new() };
        assert(r@ =~= Map::<Seq<char>, Seq<char>>::empty());
        r
    }

    fn find(&self, key: &str) -> (r: Option<usize>)
        ensures
            match r {
                Some(i) => i == position_of(self.entries@, key@) && i < self.entries@.len(),
                None => position_of(self.entries@, key@) == self.entries@.len(),
            },
    {
        let mut i: usize = 0;
        while i < self.entries.len()
            invariant
                i <= self.entries.len(),
                forall|k: int| 0 <= k < i ==> (#[trigger] self.entries@[k]).0@ != key@,
            decreases self.entries.len() - i,
        {
            if same_text(self.entries[i].0.as_str(), key) {
                proof {
                    lemma_position_of(self.entries@, key@);
                }
                return Some(i);
            }
            i += 1;
        }
        proof {
            lemma_position_of(self.entries@, key@);
        }
        None
    }

    /// The value of `key`, if the labels hold it.
    pub fn get(&self, key: &str) -> (r: Option<&String>)
        ensures
            match r {
                Some(v) => self@.contains_key(key@) && v@ == self@[key@],
                None => !self@.contains_key(key@),
            },
    {
        match self.find(key) {
            Some(i) => Some(&self.entries[i].1),
            None => None,
        }
    }

    /// Sets the value of `key`, in place of the one it had.
    pub fn insert(&mut self, key: String, value: String)
        ensures
            final(self)@ == old(self)@.insert(key@, value@),
    {
        let ghost before = self.entries@;
        let ghost wanted = key@;
        let found = self.find(key.as_str());
        match found {
            Some(i) => {
                self.entries.set(i, (key, value));
            },
            None => {
                self.entries.push((key, value));
            },
        }
        proof {
            let after = self.entries@;
            let at = position_of(before, wanted);
            assert(after.len() > at && after[at].0@ == wanted && after[at].1@ == value@);
            assert(forall|j: int| 0 <= j < before.len() && j != at ==> after[j] == before[j]);
            lemma_position_of(before, wanted);
            assert forall|k: Seq<char>|
                (#[trigger] final(self)@.contains_key(k)) == old(self)@.insert(
                    wanted,
                    value@,
                ).contains_key(k) && (final(self)@.contains_key(k) ==> final(self)@[k] == old(
                    self,
                )@.insert(wanted, value@)[k]) by {
                lemma_position_of(after, k);
                lemma_position_of(before, k);
                let pa = position_of(after, k);
                let pb = position_of(before, k);
                if k == wanted {
                    if pa < at {
                        assert(before[pa] == after[pa]);
                        assert(before[pa].0@ != wanted);
                    }
                    assert(pa == at);
                } else {
                    if pb < before.len() {
                        assert(pb != at);
                        assert(after[pb] == before[pb]);
                        if pa > pb {
                            assert(after[pb].0@ != k);
                        }
                    }
                    if pa < after.len() {
                        assert(pa != at);
                        assert(after[pa] == before[pa]);
                        if pb > pa {
                            assert(before[pa].0@ != k);
                        }
                    }
                    assert(pa == pb || (pa == after.len() && pb == before.len()));
                }
            }
            assert(final(self)@ =~= old(self)@.insert(wanted, value@));
        }
    }
}

/// Whether two texts are the same.
pub fn same_text(a: &str, b: &str) -> (r: bool)
    ensures
        r == (a@ == b@),
{
    let x = a.to_owned();
    let y = b.to_owned();
    x == y
}

} // verus!
