//! The secrets of an installation: a flat map from keys to values. Keys use underscores, no
//! dots, so that they stay flat.

use crate::lookup::{distinct, first_at, lemma_first_at, lemma_is_absent, lemma_is_first};
use crate::text::same;
use vstd::prelude::*;

verus! {

/// The keys of a list of entries.
pub open spec fn secret_keys(entries: Seq<(Seq<char>, Seq<char>)>) -> Seq<Seq<char>> {
    Seq::new(entries.len(), |i: int| entries[i].0)
}

/// The value of a key.
pub open spec fn secret_of(entries: Seq<(Seq<char>, Seq<char>)>, key: Seq<char>) -> Option<
    Seq<char>,
> {
    match first_at(secret_keys(entries), key) {
        Some(i) => Some(entries[i].1),
        None => None,
    }
}

/// The models of a list of entries.
pub open spec fn entries_of(entries: Seq<(String, String)>) -> Seq<(Seq<char>, Seq<char>)> {
    Seq::new(entries.len(), |i: int| (entries[i].0@, entries[i].1@))
}

/// A flat map from keys to secrets.
#[derive(Debug)]
pub struct SecretMap {
    entries: Vec<(String, String)>,
}

impl View for SecretMap {
    type V = Map<Seq<char>, Seq<char>>;

    closed spec fn view(&self) -> Map<Seq<char>, Seq<char>> {
        map_of(entries_of(self.entries@))
    }
}

/// The map that a list of entries stands for.
pub closed spec fn map_of(entries: Seq<(Seq<char>, Seq<char>)>) -> Map<Seq<char>, Seq<char>> {
    Map::new(
        |key: Seq<char>| secret_of(entries, key) is Some,
        |key: Seq<char>| secret_of(entries, key)->0,
    )
}

/// The value of a key in a map, `None` where there is none.
pub open spec fn looked_up(secrets: Map<Seq<char>, Seq<char>>, key: Seq<char>) -> Option<
    Seq<char>,
> {
    if secrets.dom().contains(key) {
        Some(secrets[key])
    } else {
        None
    }
}

impl SecretMap {
    #[verifier::type_invariant]
    spec fn inv(self) -> bool {
        distinct(secret_keys(entries_of(self.entries@)))
    }

    /// An empty map.
    pub fn new() -> (r: SecretMap)
        ensures
            r@ == Map::<Seq<char>, Seq<char>>::empty(),
    {
        let r = SecretMap { entries: Vec::new() };
        proof {
            let entries = entries_of(r.entries@);
            assert forall|key: Seq<char>| secret_of(entries, key) is None by {
                lemma_is_absent(secret_keys(entries), key);
            }
            assert(r@ =~= Map::<Seq<char>, Seq<char>>::empty());
        }
        r
    }

    /// The place of a key.
    fn at(&self, key: &str) -> (r: Option<usize>)
        ensures
            match r {
                Some(i) => i < self.entries.len() && first_at(
                    secret_keys(entries_of(self.entries@)),
                    key@,
                ) == Some(i as int),
                None => first_at(secret_keys(entries_of(self.entries@)), key@) is None,
            },
    {
        let ghost keys = secret_keys(entries_of(self.entries@));
        let mut i: usize = 0;
        while i < self.entries.len()
            invariant
                i <= self.entries.len(),
                keys == secret_keys(entries_of(self.entries@)),
                forall|j: int| 0 <= j < i ==> #[trigger] keys[j] != key@,
            decreases self.entries.len() - i,
        {
            assert(keys[i as int] == self.entries[i as int].0@);
            if same(self.entries[i].0.as_str(), key) {
                proof {
                    lemma_is_first(keys, key@, i as int);
                }
                return Some(i);
            }
            i += 1;
        }
        proof {
            lemma_is_absent(keys, key@);
        }
        None
    }

    /// The secret of a key.
    pub fn get(&self, key: &str) -> (r: Option<&String>)
        ensures
            match r {
                Some(v) => looked_up(self@, key@) == Some(v@),
                None => looked_up(self@, key@) is None,
            },
    {
        match self.at(key) {
            Some(i) => Some(&self.entries[i].1),
            None => None,
        }
    }

    /// Store a secret, replacing any of the same key.
    pub fn set(&mut self, key: &str, value: &str)
        ensures
            final(self)@ == old(self)@.insert(key@, value@),
    {
        proof {
            use_type_invariant(&*self);
        }
        let ghost old_entries = entries_of(self.entries@);
        let ghost old_keys = secret_keys(old_entries);
        let place = self.at(key);
        let mut entries: Vec<(String, String)> = Vec::new();
        std::mem::swap(&mut entries, &mut self.entries);
        match place {
            Some(i) => {
                entries.set(i, (key.to_owned(), value.to_owned()));
                proof {
                    let keys = secret_keys(entries_of(entries@));
                    lemma_first_at(old_keys, key@);
                    assert(keys =~= old_keys);
                    assert forall|other: Seq<char>| other != key@ implies secret_of(
                        entries_of(entries@),
                        other,
                    ) == secret_of(old_entries, other) by {
                        lemma_first_at(keys, other);
                    }
                }
            },
            None => {
                entries.push((key.to_owned(), value.to_owned()));
                proof {
                    let keys = secret_keys(entries_of(entries@));
                    lemma_first_at(old_keys, key@);
                    assert(keys =~= old_keys.push(key@));
                    assert(keys.drop_last() =~= old_keys);
                    assert forall|i: int, j: int| 0 <= i < j < keys.len() implies keys[i]
                        != keys[j] by {
                        assert(keys[i] == old_keys[i]);
                        if j < old_keys.len() {
                            assert(keys[j] == old_keys[j]);
                        }
                    }
                    assert forall|other: Seq<char>| other != key@ implies secret_of(
                        entries_of(entries@),
                        other,
                    ) == secret_of(old_entries, other) by {
                        lemma_first_at(old_keys, other);
                    }
                }
            },
        }
        proof {
            let keys = secret_keys(entries_of(entries@));
            lemma_first_at(keys, key@);
            assert(secret_of(entries_of(entries@), key@) == Some(value@));
            assert(map_of(entries_of(entries@)) =~= map_of(old_entries).insert(key@, value@));
        }
        self.entries = entries;
    }

    /// Remove a secret.
    pub fn delete(&mut self, key: &str)
        ensures
            final(self)@ == old(self)@.remove(key@),
    {
        proof {
            use_type_invariant(&*self);
        }
        let ghost old_entries = entries_of(self.entries@);
        let ghost old_keys = secret_keys(old_entries);
        match self.at(key) {
            Some(i) => {
                let mut entries: Vec<(String, String)> = Vec::new();
                std::mem::swap(&mut entries, &mut self.entries);
                let _ = entries.remove(i);
                proof {
                    let keys = secret_keys(entries_of(entries@));
                    lemma_first_at(old_keys, key@);
                    assert(entries_of(entries@) =~= old_entries.remove(i as int));
                    assert(keys =~= old_keys.remove(i as int));
                    assert forall|a: int, b: int| 0 <= a < b < keys.len() implies keys[a]
                        != keys[b] by {
                        let x = if a < i { a } else { a + 1 };
                        let y = if b < i { b } else { b + 1 };
                        assert(keys[a] == old_keys[x] && keys[b] == old_keys[y]);
                    }
                    assert(secret_of(entries_of(entries@), key@) is None) by {
                        assert forall|j: int| 0 <= j < keys.len() implies #[trigger] keys[j]
                            != key@ by {
                            let x = if j < i { j } else { j + 1 };
                            assert(keys[j] == old_keys[x]);
                            assert(old_keys[i as int] == key@);
                        }
                        lemma_is_absent(keys, key@);
                    }
                    assert forall|other: Seq<char>| other != key@ implies secret_of(
                        entries_of(entries@),
                        other,
                    ) == secret_of(old_entries, other) by {
                        lemma_first_at(old_keys, other);
                        match first_at(old_keys, other) {
                            Some(k) => {
                                let at = if k < i { k } else { k - 1 };
                                assert(keys[at] == other);
                                lemma_is_first(keys, other, at);
                            },
                            None => {
                                assert forall|j: int| 0 <= j < keys.len() implies #[trigger] keys[j]
                                    != other by {
                                    let x = if j < i { j } else { j + 1 };
                                    assert(keys[j] == old_keys[x]);
                                }
                                lemma_is_absent(keys, other);
                            },
                        }
                    }
                    assert(map_of(entries_of(entries@)) =~= map_of(old_entries).remove(key@));
                }
                self.entries = entries;
            },
            None => {
                assert(map_of(old_entries) =~= map_of(old_entries).remove(key@));
            },
        }
    }

    /// The keys and secrets, in the order in which they were first stored.
    pub fn into_entries(self) -> (r: Vec<(String, String)>)
        ensures
            distinct(secret_keys(entries_of(r@))),
            forall|key: Seq<char>| looked_up(self@, key) == #[trigger] secret_of(
                entries_of(r@),
                key,
            ),
    {
        proof {
            use_type_invariant(&self);
        }
        self.entries
    }
}

} // verus!
