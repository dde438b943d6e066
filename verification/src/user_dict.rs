use vstd::prelude::*;

use crate::mora::{mora_count, spec_mora_count};
use crate::result::CoreError;

verus! {

// The pronunciation dictionary store: a mutable keyed collection of words,
// owned exclusively by one holder (the server wraps it in a lock).  Every
// mutation leaves the keys unique; the store's view is the map from word uuid
// to the word's fields.  Persisting the dictionary to its file and rebuilding
// the text analyzer from it happen outside, after each mutation.

/// A stored dictionary word, keyed by its uuid.
pub struct UserDictWord {
    pub word_uuid: String,
    pub surface: String,
    pub pronunciation: String,
    pub accent_type: usize,
    pub priority: u32,
}

/// A dictionary word as displayed: the stored fields plus the derived mora
/// count of the pronunciation.
pub struct VvUserDictWord {
    pub priority: u32,
    pub accent_type: usize,
    pub mora_count: usize,
    pub surface: String,
    pub pronunciation: String,
}

/// The client-supplied part of a word: everything but the uuid and the
/// derived mora count.
pub struct VvUserDictWordParam {
    pub priority: u32,
    pub accent_type: usize,
    pub surface: String,
    pub pronunciation: String,
}

/// The mathematical content of one word, uuid excluded.
pub ghost struct WordView {
    pub surface: Seq<char>,
    pub pronunciation: Seq<char>,
    pub accent_type: usize,
    pub priority: u32,
}

impl View for UserDictWord {
    type V = WordView;

    open spec fn view(&self) -> WordView {
        WordView {
            surface: self.surface@,
            pronunciation: self.pronunciation@,
            accent_type: self.accent_type,
            priority: self.priority,
        }
    }
}

impl VvUserDictWordParam {
    /// The word content this parameter describes.
    pub open spec fn word_view(&self) -> WordView {
        WordView {
            surface: self.surface@,
            pronunciation: self.pronunciation@,
            accent_type: self.accent_type,
            priority: self.priority,
        }
    }
}

impl VvUserDictWord {
    /// The word content this displayed word carries; the mora count field is
    /// derived data and not part of the content.
    pub open spec fn word_view(&self) -> WordView {
        WordView {
            surface: self.surface@,
            pronunciation: self.pronunciation@,
            accent_type: self.accent_type,
            priority: self.priority,
        }
    }

    /// Whether this displayed word shows exactly the content `v`, with the
    /// mora count derived from the pronunciation.
    pub open spec fn shows(&self, v: WordView) -> bool {
        &&& self.surface@ == v.surface
        &&& self.pronunciation@ == v.pronunciation
        &&& self.accent_type == v.accent_type
        &&& self.priority == v.priority
        &&& self.mora_count == spec_mora_count(v.pronunciation)
    }
}

impl From<VvUserDictWordParam> for VvUserDictWord {
    /// Derives the displayed form of a word from the client-supplied fields,
    /// recomputing the mora count from the pronunciation.
    fn from(param: VvUserDictWordParam) -> (r: VvUserDictWord) {
        let n = mora_count(param.pronunciation.as_str());
        VvUserDictWord {
            priority: param.priority,
            accent_type: param.accent_type,
            mora_count: n,
            surface: param.surface,
            pronunciation: param.pronunciation,
        }
    }
}

impl vstd::std_specs::convert::FromSpecImpl<VvUserDictWordParam> for VvUserDictWord {
    open spec fn obeys_from_spec() -> bool {
        true
    }

    open spec fn from_spec(param: VvUserDictWordParam) -> VvUserDictWord {
        VvUserDictWord {
            priority: param.priority,
            accent_type: param.accent_type,
            mora_count: spec_mora_count(param.pronunciation@) as usize,
            surface: param.surface,
            pronunciation: param.pronunciation,
        }
    }
}

/// The map from word uuid to word content that a word sequence holds; on a
/// repeated uuid the later entry wins.
pub open spec fn dict_map(words: Seq<UserDictWord>) -> Map<Seq<char>, WordView>
    decreases words.len(),
{
    if words.len() == 0 {
        Map::empty()
    } else {
        dict_map(words.drop_last()).insert(words.last().word_uuid@, words.last()@)
    }
}

/// The map that an imported batch stands for; on a repeated uuid the later
/// entry wins.
pub open spec fn batch_map(batch: Seq<(String, VvUserDictWord)>) -> Map<Seq<char>, WordView>
    decreases batch.len(),
{
    if batch.len() == 0 {
        Map::empty()
    } else {
        batch_map(batch.drop_last()).insert(batch.last().0@, batch.last().1.word_view())
    }
}

/// Whether the word uuids of a sequence are pairwise distinct.
pub open spec fn unique_uuids(words: Seq<UserDictWord>) -> bool {
    forall|i: int, j: int|
        0 <= i < j < words.len() ==> words[i].word_uuid@ != words[j].word_uuid@
}

/// A uuid is a key of the map exactly when some entry of the sequence holds it.
pub proof fn lemma_dict_map_contains(words: Seq<UserDictWord>, u: Seq<char>)
    ensures
        dict_map(words).contains_key(u) <==> exists|i: int|
            0 <= i < words.len() && words[i].word_uuid@ == u,
    decreases words.len(),
{
    if words.len() > 0 {
        lemma_dict_map_contains(words.drop_last(), u);
        if words.last().word_uuid@ == u {
            assert(words[words.len() - 1].word_uuid@ == u);
        } else if dict_map(words).contains_key(u) {
            let i = choose|i: int| 0 <= i < words.len() - 1 && words.drop_last()[i].word_uuid@ == u;
            assert(words[i].word_uuid@ == u);
        } else if exists|i: int| 0 <= i < words.len() && words[i].word_uuid@ == u {
            let i = choose|i: int| 0 <= i < words.len() && words[i].word_uuid@ == u;
            assert(words.drop_last()[i].word_uuid@ == u);
        }
    }
}

/// Under unique uuids, the map sends each entry's uuid to that entry's content.
pub proof fn lemma_dict_map_index(words: Seq<UserDictWord>, i: int)
    requires
        unique_uuids(words),
        0 <= i < words.len(),
    ensures
        dict_map(words).contains_key(words[i].word_uuid@),
        dict_map(words)[words[i].word_uuid@] == words[i]@,
    decreases words.len(),
{
    if i < words.len() - 1 {
        lemma_dict_map_index(words.drop_last(), i);
        assert(words.drop_last()[i] == words[i]);
        assert(words[i].word_uuid@ != words.last().word_uuid@);
    }
}

/// Removing the entry at an index removes exactly its uuid from the map.
pub proof fn lemma_dict_map_remove(words: Seq<UserDictWord>, i: int)
    requires
        unique_uuids(words),
        0 <= i < words.len(),
    ensures
        dict_map(words.remove(i)) == dict_map(words).remove(words[i].word_uuid@),
    decreases words.len(),
{
    let u = words[i].word_uuid@;
    if i == words.len() - 1 {
        assert(words.remove(i) =~= words.drop_last());
        lemma_dict_map_contains(words.drop_last(), u);
        assert(forall|k: int|
            0 <= k < words.len() - 1 ==> words.drop_last()[k].word_uuid@ != u);
        assert(dict_map(words.drop_last()) =~= dict_map(words).remove(u));
    } else {
        let shorter = words.remove(i);
        assert(shorter.drop_last() =~= words.drop_last().remove(i));
        assert(shorter.last() == words.last());
        lemma_dict_map_remove(words.drop_last(), i);
        assert(words.last().word_uuid@ != u);
        assert(dict_map(shorter) =~= dict_map(words).remove(u));
    }
}

/// Overwriting the entry at an index, keeping its uuid, is a map insertion.
pub proof fn lemma_dict_map_update(words: Seq<UserDictWord>, i: int, w: UserDictWord)
    requires
        unique_uuids(words),
        0 <= i < words.len(),
        w.word_uuid@ == words[i].word_uuid@,
    ensures
        dict_map(words.update(i, w)) == dict_map(words).insert(w.word_uuid@, w@),
    decreases words.len(),
{
    let u = w.word_uuid@;
    if i == words.len() - 1 {
        assert(words.update(i, w).drop_last() =~= words.drop_last());
        assert(words.update(i, w).last() == w);
        assert(dict_map(words.update(i, w)) =~= dict_map(words).insert(u, w@));
    } else {
        let updated = words.update(i, w);
        assert(updated.drop_last() =~= words.drop_last().update(i, w));
        assert(updated.last() == words.last());
        lemma_dict_map_update(words.drop_last(), i, w);
        assert(words.last().word_uuid@ != u);
        assert(dict_map(updated) =~= dict_map(words).insert(u, w@));
    }
}

/// Relies on uuid::Uuid::new_v4 and its hyphenated form: a freshly drawn
/// random uuid, printed as the 36-character hyphenated text.  Which uuid
/// comes back is not assumed; only the length of its printed form is.
#[verifier::external_body]
fn new_word_uuid() -> (r: String)
    ensures
        r@.len() == 36,
{
    uuid::Uuid::new_v4().hyphenated().to_string()
}

/// The pronunciation dictionary store.  Mutations keep the word uuids unique;
/// the view is the uuid-keyed map of word contents.
pub struct UserDict {
    words: Vec<UserDictWord>,
}

impl View for UserDict {
    type V = Map<Seq<char>, WordView>;

    closed spec fn view(&self) -> Map<Seq<char>, WordView> {
        dict_map(self.words@)
    }
}

impl UserDict {
    /// Well-formedness: the stored word uuids are pairwise distinct.  Every
    /// constructor establishes it and every mutation preserves it.
    pub closed spec fn wf(self) -> bool {
        unique_uuids(self.words@)
    }

    /// An empty dictionary.
    pub fn new() -> (r: UserDict)
        ensures
            r@ == Map::<Seq<char>, WordView>::empty(),
            r.wf(),
    {
        UserDict { words: Vec::new() }
    }

    /// The index of the entry holding a uuid, if any.
    fn find_index(&self, word_uuid: &String) -> (r: Option<usize>)
        ensures
            match r {
                Some(i) => i < self.words@.len() && self.words@[i as int].word_uuid@
                    == word_uuid@,
                None => forall|i: int|
                    0 <= i < self.words@.len() ==> self.words@[i].word_uuid@ != word_uuid@,
            },
    {
        let mut i: usize = 0;
        while i < self.words.len()
            invariant
                i <= self.words@.len(),
                forall|j: int| 0 <= j < i ==> self.words@[j].word_uuid@ != word_uuid@,
            decreases self.words@.len() - i,
        {
            if self.words[i].word_uuid.eq(word_uuid) {
                return Some(i);
            }
            i = i + 1;
        }
        None
    }

    /// Whether a word with this uuid is present.
    pub fn contains(&self, word_uuid: &String) -> (r: bool)
        ensures
            r == self@.contains_key(word_uuid@),
    {
        proof {
            lemma_dict_map_contains(self.words@, word_uuid@);
        }
        self.find_index(word_uuid).is_some()
    }

    /// Inserts a word under a given uuid; fails, changing nothing, exactly
    /// when the uuid is already present.
    pub fn add_word_with_uuid(&mut self, word_uuid: String, param: &VvUserDictWordParam) -> (r:
        Result<(), CoreError>)
        requires
            old(self).wf(),
        ensures
            final(self).wf(),
            old(self)@.contains_key(word_uuid@) ==> r == Err::<(), CoreError>(
                CoreError::DuplicateWord,
            ) && final(self)@ == old(self)@,
            !old(self)@.contains_key(word_uuid@) ==> r == Ok::<(), CoreError>(()) && final(self)@
                == old(self)@.insert(word_uuid@, param.word_view()),
    {
        proof {
            lemma_dict_map_contains(self.words@, word_uuid@);
        }
        match self.find_index(&word_uuid) {
            Some(_) => Err(CoreError::DuplicateWord),
            None => {
                let word = UserDictWord {
                    word_uuid,
                    surface: param.surface.clone(),
                    pronunciation: param.pronunciation.clone(),
                    accent_type: param.accent_type,
                    priority: param.priority,
                };
                let ghost before = self.words@;
                self.words.push(word);
                proof {
                    assert(self.words@.drop_last() =~= before);
                }
                Ok(())
            },
        }
    }

    /// Inserts a word under a freshly drawn uuid and returns that uuid; fails,
    /// changing nothing, only if the drawn uuid happens to be present already
    /// — so never on a store holding no 36-character key.
    pub fn add_word(&mut self, param: &VvUserDictWordParam) -> (r: Result<String, CoreError>)
        requires
            old(self).wf(),
        ensures
            final(self).wf(),
            match r {
                Ok(u) => u@.len() == 36 && !old(self)@.contains_key(u@) && final(self)@ == old(
                    self,
                )@.insert(u@, param.word_view()),
                Err(e) => e == CoreError::DuplicateWord && final(self)@ == old(self)@ && exists|
                    k: Seq<char>,
                |
                    old(self)@.contains_key(k) && k.len() == 36,
            },
    {
        let word_uuid = new_word_uuid();
        let returned = word_uuid.clone();
        let ghost key = word_uuid@;
        match self.add_word_with_uuid(word_uuid, param) {
            Ok(_) => Ok(returned),
            Err(e) => {
                proof {
                    assert(old(self)@.contains_key(key) && key.len() == 36);
                }
                Err(e)
            },
        }
    }

    /// Rewrites the word stored under a uuid; fails, changing nothing,
    /// exactly when the uuid is absent.
    pub fn update_word(&mut self, word_uuid: &String, param: &VvUserDictWordParam) -> (r: Result<
        (),
        CoreError,
    >)
        requires
            old(self).wf(),
        ensures
            final(self).wf(),
            old(self)@.contains_key(word_uuid@) ==> r == Ok::<(), CoreError>(()) && final(self)@
                == old(self)@.insert(word_uuid@, param.word_view()),
            !old(self)@.contains_key(word_uuid@) ==> r == Err::<(), CoreError>(
                CoreError::WordNotFound,
            ) && final(self)@ == old(self)@,
    {
        proof {
            lemma_dict_map_contains(self.words@, word_uuid@);
        }
        match self.find_index(word_uuid) {
            None => Err(CoreError::WordNotFound),
            Some(i) => {
                let word = UserDictWord {
                    word_uuid: self.words[i].word_uuid.clone(),
                    surface: param.surface.clone(),
                    pronunciation: param.pronunciation.clone(),
                    accent_type: param.accent_type,
                    priority: param.priority,
                };
                let ghost before = self.words@;
                proof {
                    lemma_dict_map_update(before, i as int, word);
                }
                self.words[i] = word;
                proof {
                    assert(unique_uuids(self.words@)) by {
                        assert(forall|j: int|
                            0 <= j < before.len() ==> self.words@[j].word_uuid@
                                == before[j].word_uuid@);
                    }
                }
                Ok(())
            },
        }
    }

    /// Removes the word stored under a uuid; fails, changing nothing,
    /// exactly when the uuid is absent.
    pub fn remove_word(&mut self, word_uuid: &String) -> (r: Result<(), CoreError>)
        requires
            old(self).wf(),
        ensures
            final(self).wf(),
            old(self)@.contains_key(word_uuid@) ==> r == Ok::<(), CoreError>(()) && final(self)@
                == old(self)@.remove(word_uuid@),
            !old(self)@.contains_key(word_uuid@) ==> r == Err::<(), CoreError>(
                CoreError::WordNotFound,
            ) && final(self)@ == old(self)@,
    {
        proof {
            lemma_dict_map_contains(self.words@, word_uuid@);
        }
        match self.find_index(word_uuid) {
            None => Err(CoreError::WordNotFound),
            Some(i) => {
                let ghost before = self.words@;
                proof {
                    lemma_dict_map_remove(before, i as int);
                }
                self.words.remove(i);
                proof {
                    assert(unique_uuids(self.words@)) by {
                        assert(forall|j: int|
                            0 <= j < self.words@.len() ==> self.words@[j] == if j < i as int {
                                before[j]
                            } else {
                                before[j + 1]
                            });
                    }
                }
                Ok(())
            },
        }
    }

    /// Merges a batch of words into the dictionary, overwriting by uuid; on a
    /// uuid repeated within the batch the later entry wins.
    pub fn import(&mut self, batch: &Vec<(String, VvUserDictWord)>)
        requires
            old(self).wf(),
        ensures
            final(self).wf(),
            final(self)@ == old(self)@.union_prefer_right(batch_map(batch@)),
    {
        proof {
            assert(batch@.take(0) =~= Seq::<(String, VvUserDictWord)>::empty());
            assert(self@ =~= self@.union_prefer_right(batch_map(batch@.take(0))));
        }
        let mut k: usize = 0;
        while k < batch.len()
            invariant
                k <= batch@.len(),
                self.wf(),
                self@ == old(self)@.union_prefer_right(batch_map(batch@.take(k as int))),
            decreases batch@.len() - k,
        {
            let entry = &batch[k];
            self.upsert(&entry.0, &entry.1);
            proof {
                assert(batch@.take(k + 1).drop_last() =~= batch@.take(k as int));
                assert(batch@.take(k + 1).last() == batch@[k as int]);
                assert(self@ =~= old(self)@.union_prefer_right(batch_map(batch@.take(k + 1))));
            }
            k = k + 1;
        }
        proof {
            assert(batch@.take(batch@.len() as int) =~= batch@);
        }
    }

    /// Inserts or overwrites one word under a given uuid.
    fn upsert(&mut self, word_uuid: &String, word: &VvUserDictWord)
        requires
            old(self).wf(),
        ensures
            final(self).wf(),
            final(self)@ == old(self)@.insert(word_uuid@, word.word_view()),
    {
        proof {
            lemma_dict_map_contains(self.words@, word_uuid@);
        }
        match self.find_index(word_uuid) {
            Some(i) => {
                let stored = UserDictWord {
                    word_uuid: self.words[i].word_uuid.clone(),
                    surface: word.surface.clone(),
                    pronunciation: word.pronunciation.clone(),
                    accent_type: word.accent_type,
                    priority: word.priority,
                };
                let ghost before = self.words@;
                proof {
                    lemma_dict_map_update(before, i as int, stored);
                }
                self.words[i] = stored;
                proof {
                    assert(unique_uuids(self.words@)) by {
                        assert(forall|j: int|
                            0 <= j < before.len() ==> self.words@[j].word_uuid@
                                == before[j].word_uuid@);
                    }
                }
            },
            None => {
                let stored = UserDictWord {
                    word_uuid: word_uuid.clone(),
                    surface: word.surface.clone(),
                    pronunciation: word.pronunciation.clone(),
                    accent_type: word.accent_type,
                    priority: word.priority,
                };
                let ghost before = self.words@;
                self.words.push(stored);
                proof {
                    assert(self.words@.drop_last() =~= before);
                }
            },
        }
    }

    /// Every stored word in insertion order, with the uuid it is keyed by and
    /// the mora count derived from its pronunciation.
    pub fn list(&self) -> (r: Vec<(String, VvUserDictWord)>)
        requires
            self.wf(),
        ensures
            forall|i: int|
                0 <= i < r@.len() ==> #[trigger] self@.contains_key(r@[i].0@) && r@[i].1.shows(
                    self@[r@[i].0@],
                ),
            forall|k: Seq<char>|
                #[trigger] self@.contains_key(k) ==> exists|i: int|
                    0 <= i < r@.len() && r@[i].0@ == k,
            forall|i: int, j: int| 0 <= i < j < r@.len() ==> r@[i].0@ != r@[j].0@,
    {
        let mut r: Vec<(String, VvUserDictWord)> = Vec::new();
        let mut k: usize = 0;
        while k < self.words.len()
            invariant
                k <= self.words@.len(),
                r@.len() == k,
                self.wf(),
                forall|j: int|
                    0 <= j < k ==> (#[trigger] r@[j]).0@ == self.words@[j].word_uuid@
                        && r@[j].1.shows(self.words@[j]@),
            decreases self.words@.len() - k,
        {
            let w = &self.words[k];
            let n = mora_count(w.pronunciation.as_str());
            let ghost prev = r@;
            r.push(
                (
                    w.word_uuid.clone(),
                    VvUserDictWord {
                        priority: w.priority,
                        accent_type: w.accent_type,
                        mora_count: n,
                        surface: w.surface.clone(),
                        pronunciation: w.pronunciation.clone(),
                    },
                ),
            );
            proof {
                assert(r@[k as int].0@ == self.words@[k as int].word_uuid@);
                assert(r@[k as int].1.shows(self.words@[k as int]@));
                assert(forall|j: int| 0 <= j < k ==> r@[j] == prev[j]);
            }
            k = k + 1;
        }
        proof {
            assert forall|i: int|
                0 <= i < r@.len() implies #[trigger] self@.contains_key(r@[i].0@) && r@[i].1.shows(
                self@[r@[i].0@],
            ) by {
                lemma_dict_map_index(self.words@, i);
            }
            assert forall|k2: Seq<char>| #[trigger] self@.contains_key(k2) implies exists|i: int|
                0 <= i < r@.len() && r@[i].0@ == k2 by {
                lemma_dict_map_contains(self.words@, k2);
                let i = choose|i: int|
                    0 <= i < self.words@.len() && self.words@[i].word_uuid@ == k2;
                assert(r@[i].0@ == k2);
            }
        }
        r
    }
}

/// Law: adding a word under a fresh uuid makes it readable back with exactly
/// the fields that were given; removing it afterwards restores the dictionary
/// exactly; updating it rewrites exactly the targeted uuid and no other.
pub proof fn lemma_dict_round_trip(
    m: Map<Seq<char>, WordView>,
    u: Seq<char>,
    w: WordView,
    w2: WordView,
)
    requires
        !m.contains_key(u),
    ensures
        m.insert(u, w)[u] == w,
        forall|k: Seq<char>| k != u ==> (m.insert(u, w).contains_key(k) <==> m.contains_key(k)),
        forall|k: Seq<char>|
            k != u && #[trigger] m.contains_key(k) ==> m.insert(u, w)[k] == m[k],
        m.insert(u, w).remove(u) == m,
        m.insert(u, w).insert(u, w2)[u] == w2,
        forall|k: Seq<char>|
            k != u && #[trigger] m.contains_key(k) ==> m.insert(u, w).insert(u, w2)[k] == m[k],
{
    assert(m.insert(u, w).remove(u) =~= m);
}

/// Law: two insertions under fresh uuids — the serialization of two add calls
/// racing for the store's exclusive lock — both survive: neither update is
/// lost, whichever order the lock grants.
pub proof fn lemma_two_adds_preserved(
    m: Map<Seq<char>, WordView>,
    u1: Seq<char>,
    w1: WordView,
    u2: Seq<char>,
    w2: WordView,
)
    requires
        !m.contains_key(u1),
        !m.insert(u1, w1).contains_key(u2),
    ensures
        m.insert(u1, w1).insert(u2, w2).contains_key(u1),
        m.insert(u1, w1).insert(u2, w2).contains_key(u2),
        m.insert(u1, w1).insert(u2, w2)[u1] == w1,
        m.insert(u1, w1).insert(u2, w2)[u2] == w2,
{
}

} // verus!
