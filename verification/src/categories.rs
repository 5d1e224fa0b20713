//! Download categories: which category (`tv`, `movies`, `music`, ...) each
//! torrent hash was added under.

use vstd::prelude::*;
use crate::text::same_text;

verus! {

/// Map from torrent hash to download category.
pub struct CategoryMap {
    entries: Vec<(String, String)>,
}

impl CategoryMap {
    #[verifier::type_invariant]
    spec fn keys_distinct(self) -> bool {
        forall|i: int, j: int|
            0 <= i < j < self.entries@.len() ==> #[trigger] self.entries@[i].0@
                != #[trigger] self.entries@[j].0@
    }

    spec fn index_of(self, key: Seq<char>) -> int {
        choose|i: int| 0 <= i < self.entries@.len() && self.entries@[i].0@ == key
    }

    spec fn holds(self, key: Seq<char>) -> bool {
        exists|i: int| 0 <= i < self.entries@.len() && self.entries@[i].0@ == key
    }
}

impl View for CategoryMap {
    type V = Map<Seq<char>, Seq<char>>;

    closed spec fn view(&self) -> Map<Seq<char>, Seq<char>> {
        Map::new(|k: Seq<char>| self.holds(k), |k: Seq<char>| self.entries@[self.index_of(k)].1@)
    }
}

impl CategoryMap {
    proof fn lemma_entry(self, i: int)
        requires
            self.keys_distinct(),
            0 <= i < self.entries@.len(),
        ensures
            self@.contains_key(self.entries@[i].0@),
            self@[self.entries@[i].0@] == self.entries@[i].1@,
    {
        let k = self.entries@[i].0@;
        assert(self.holds(k));
        let j = self.index_of(k);
        if j != i {
            if i < j {
                assert(self.entries@[i].0@ != self.entries@[j].0@);
            } else {
                assert(self.entries@[j].0@ != self.entries@[i].0@);
            }
        }
    }

    /// An empty map.
    pub fn new() -> (r: CategoryMap)
        ensures
            r@ == Map::<Seq<char>, Seq<char>>::empty(),
    {
        let r = CategoryMap { entries: Vec::new() };
        assert(r@ =~= Map::<Seq<char>, Seq<char>>::empty());
        r
    }

    /// Position of `key` in the entries.
    fn find(&self, key: &str) -> (r: Option<usize>)
        ensures
            match r {
                Some(i) => i < self.entries@.len() && self.entries@[i as int].0@ == key@,
                None => !self.holds(key@),
            },
    {
        let mut i: usize = 0;
        while i < self.entries.len()
            invariant
                i <= self.entries@.len(),
                forall|k: int| 0 <= k < i ==> #[trigger] self.entries@[k].0@ != key@,
            decreases self.entries.len() - i,
        {
            if same_text(self.entries[i].0.as_str(), key) {
                return Some(i);
            }
            i += 1;
        }
        None
    }

    /// The category recorded for `key`.
    pub fn get(&self, key: &str) -> (r: Option<String>)
        ensures
            match r {
                Some(v) => self@.contains_key(key@) && self@[key@] == v@,
                None => !self@.contains_key(key@),
            },
    {
        proof {
            use_type_invariant(self);
        }
        match self.find(key) {
            Some(i) => {
                proof {
                    self.lemma_entry(i as int);
                }
                Some(self.entries[i].1.clone())
            },
            None => None,
        }
    }

    /// Every (hash, category) pair of the map, each hash once.
    pub fn pairs(&self) -> (r: Vec<(String, String)>)
        ensures
            forall|i: int|
                0 <= i < r@.len() ==> self@.contains_key((#[trigger] r@[i]).0@) && self@[r@[i].0@]
                    == r@[i].1@,
            forall|k: Seq<char>|
                #[trigger] self@.contains_key(k) ==> exists|i: int| 0 <= i < r@.len() && r@[i].0@ == k,
            forall|i: int, j: int| 0 <= i < j < r@.len() ==> (#[trigger] r@[i]).0@ != (#[trigger] r@[j]).0@,
    {
        proof {
            use_type_invariant(self);
        }
        let mut r: Vec<(String, String)> = Vec::new();
        let mut i: usize = 0;
        while i < self.entries.len()
            invariant
                self.keys_distinct(),
                i <= self.entries@.len(),
                r@.len() == i,
                forall|j: int| 0 <= j < i ==> #[trigger] r@[j] == self.entries@[j],
            decreases self.entries.len() - i,
        {
            let k = self.entries[i].0.clone();
            let v = self.entries[i].1.clone();
            r.push((k, v));
            i += 1;
        }
        proof {
            assert forall|i: int|
                0 <= i < r@.len() implies self@.contains_key((#[trigger] r@[i]).0@) && self@[r@[i].0@]
                == r@[i].1@ by {
                self.lemma_entry(i);
            }
            assert forall|k: Seq<char>| #[trigger] self@.contains_key(k) implies exists|i: int|
                0 <= i < r@.len() && r@[i].0@ == k by {
                let w = choose|w: int| 0 <= w < self.entries@.len() && self.entries@[w].0@ == k;
                assert(r@[w].0@ == k);
            }
            assert forall|i: int, j: int| 0 <= i < j < r@.len() implies (#[trigger] r@[i]).0@
                != (#[trigger] r@[j]).0@ by {
                assert(self.entries@[i].0@ != self.entries@[j].0@);
            }
        }
        r
    }

    /// Records `value` as the category of `key`, replacing any earlier one.
    pub fn insert(&mut self, key: String, value: String)
        ensures
            final(self)@ == old(self)@.insert(key@, value@),
    {
        proof {
            use_type_invariant(&*self);
        }
        let ghost old_map = self@;
        let ghost old_entries = self.entries@;
        match self.find(key.as_str()) {
            Some(i) => {
                let ghost k = key@;
                let ghost v = value@;
                let mut entries: Vec<(String, String)> = Vec::new();
                std::mem::swap(&mut entries, &mut self.entries);
                entries.set(i, (key, value));
                proof {
                    assert forall|a: int, b: int|
                        0 <= a < b < entries@.len() implies #[trigger] entries@[a].0@
                        != #[trigger] entries@[b].0@ by {
                        if a != i as int && b != i as int {
                            assert(old_entries[a].0@ != old_entries[b].0@);
                        } else if a == i as int {
                            assert(old_entries[a].0@ == k);
                            assert(old_entries[a].0@ != old_entries[b].0@);
                        } else {
                            assert(old_entries[b].0@ == k);
                            assert(old_entries[a].0@ != old_entries[b].0@);
                        }
                    }
                }
                self.entries = entries;
                proof {
                    use_type_invariant(&*self);
                    assert forall|q: Seq<char>| #[trigger] self@.contains_key(q) == old_map.insert(
                        k,
                        v,
                    ).contains_key(q) by {
                        if old_map.contains_key(q) {
                            let w = choose|w: int| 0 <= w < old_entries.len() && old_entries[w].0@ == q;
                            if w == i {
                                assert(self.entries@[i as int].0@ == k);
                            } else {
                                assert(self.entries@[w].0@ == q);
                            }
                        }
                        if self.holds(q) {
                            let w = choose|w: int| 0 <= w < self.entries@.len() && self.entries@[w].0@ == q;
                            if w != i {
                                assert(old_entries[w].0@ == q);
                            }
                        }
                    }
                    assert forall|q: Seq<char>| #[trigger] self@.contains_key(q) implies self@[q]
                        == old_map.insert(k, v)[q] by {
                        let w = choose|w: int| 0 <= w < self.entries@.len() && self.entries@[w].0@ == q;
                        self.lemma_entry(w);
                        if w != i {
                            assert(old_entries[w] == self.entries@[w]);
                            old(self).lemma_entry(w);
                        }
                    }
                    assert(self@ =~= old_map.insert(k, v));
                }
            },
            None => {
                let ghost k = key@;
                let ghost v = value@;
                let mut entries: Vec<(String, String)> = Vec::new();
                std::mem::swap(&mut entries, &mut self.entries);
                entries.push((key, value));
                proof {
                    assert forall|a: int, b: int|
                        0 <= a < b < entries@.len() implies #[trigger] entries@[a].0@
                        != #[trigger] entries@[b].0@ by {
                        if b < old_entries.len() {
                            assert(old_entries[a].0@ != old_entries[b].0@);
                        } else {
                            assert(entries@[a] == old_entries[a]);
                        }
                    }
                }
                self.entries = entries;
                proof {
                    use_type_invariant(&*self);
                    let n = old_entries.len() as int;
                    assert forall|q: Seq<char>| #[trigger] self@.contains_key(q) == old_map.insert(
                        k,
                        v,
                    ).contains_key(q) by {
                        if old_map.contains_key(q) {
                            let w = choose|w: int| 0 <= w < old_entries.len() && old_entries[w].0@ == q;
                            assert(self.entries@[w].0@ == q);
                        }
                        if q == k {
                            assert(self.entries@[n].0@ == q);
                        }
                        if self.holds(q) {
                            let w = choose|w: int| 0 <= w < self.entries@.len() && self.entries@[w].0@ == q;
                            if w != n {
                                assert(old_entries[w].0@ == q);
                            }
                        }
                    }
                    assert forall|q: Seq<char>| #[trigger] self@.contains_key(q) implies self@[q]
                        == old_map.insert(k, v)[q] by {
                        let w = choose|w: int| 0 <= w < self.entries@.len() && self.entries@[w].0@ == q;
                        self.lemma_entry(w);
                        if w != n {
                            assert(old_entries[w] == self.entries@[w]);
                            old(self).lemma_entry(w);
                        }
                    }
                    assert(self@ =~= old_map.insert(k, v));
                }
            },
        }
    }
}

/// The download category that a per-application URL path stands for.
pub open spec fn category_of_app(app: Seq<char>) -> Seq<char> {
    if app == "sonarr"@ {
        "tv"@
    } else if app == "radarr"@ {
        "movies"@
    } else if app == "lidarr"@ {
        "music"@
    } else {
        app
    }
}

/// Maps the application named in a per-application URL to its download
/// category; any other name is its own category.
pub fn app_to_category(app: &str) -> (r: &str)
    ensures
        r@ == category_of_app(app@),
{
    if same_text(app, "sonarr") {
        "tv"
    } else if same_text(app, "radarr") {
        "movies"
    } else if same_text(app, "lidarr") {
        "music"
    } else {
        app
    }
}

/// Whether an application is consulted about a transfer of the given
/// category: every application when there is none, else the one whose
/// category it is.
pub fn app_matches_category(app: &str, category: Option<&str>) -> (r: bool)
    ensures
        r == (category is None || category_of_app(app@) == category->0@),
{
    match category {
        None => true,
        Some(c) => same_text(app_to_category(app), c),
    }
}

} // verus!

verus! {

/// Reading a hash's category back gives the category last recorded for it,
/// and recording one hash's category leaves every other hash's as it was.
pub proof fn law_category_read_back(
    m: Map<Seq<char>, Seq<char>>,
    hash: Seq<char>,
    category: Seq<char>,
    other: Seq<char>,
)
    ensures
        m.insert(hash, category).contains_key(hash),
        m.insert(hash, category)[hash] == category,
        other != hash ==> m.insert(hash, category).contains_key(other) == m.contains_key(other),
        other != hash && m.contains_key(other) ==> m.insert(hash, category)[other] == m[other],
{
}

} // verus!
