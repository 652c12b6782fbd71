use vstd::prelude::*;

verus! {

/// A known speaker. The embedding, when present, holds the 32-bit patterns
/// of the voice-print components.
pub struct Speaker {
    pub id: String,
    pub name: String,
    pub embedding: Option<Vec<u32>>,
}

/// What the registry knows of one speaker.
pub struct SpeakerEntry {
    pub name: Seq<char>,
    pub embedding: Option<Seq<u32>>,
}

pub open spec fn embedding_view(e: Option<Vec<u32>>) -> Option<Seq<u32>> {
    match e {
        Some(v) => Some(v@),
        None => None,
    }
}

pub open spec fn entry_of(s: Speaker) -> SpeakerEntry {
    SpeakerEntry { name: s.name@, embedding: embedding_view(s.embedding) }
}

/// The registry described by a list of records: each id maps to its record,
/// a later record for the same id replacing an earlier one.
pub open spec fn records_map(s: Seq<Speaker>) -> Map<Seq<char>, SpeakerEntry>
    decreases s.len(),
{
    if s.len() == 0 {
        Map::empty()
    } else {
        records_map(s.drop_last()).insert(s.last().id@, entry_of(s.last()))
    }
}

/// No two records share an id.
pub open spec fn unique_ids(s: Seq<Speaker>) -> bool {
    forall|i: int, j: int| 0 <= i < j < s.len() ==> (#[trigger] s[i]).id@ != (#[trigger] s[j]).id@
}

/// The registry after `add_speaker(id, name)`: the name is set, and a speaker
/// already known keeps its embedding while a new one has none.
pub open spec fn add_speaker_spec(m: Map<Seq<char>, SpeakerEntry>, id: Seq<char>, name: Seq<char>) -> Map<Seq<char>, SpeakerEntry> {
    m.insert(
        id,
        SpeakerEntry { name, embedding: if m.contains_key(id) { m[id].embedding } else { None } },
    )
}

/// The name shown for `id`: its registered name, or the id itself when unknown.
pub open spec fn display_name_spec(m: Map<Seq<char>, SpeakerEntry>, id: Seq<char>) -> Seq<char> {
    if m.contains_key(id) {
        m[id].name
    } else {
        id
    }
}

/// A copy of an embedding.
fn copy_embedding(e: &Option<Vec<u32>>) -> (r: Option<Vec<u32>>)
    ensures
        embedding_view(r) == embedding_view(*e),
{
    match e {
        None => None,
        Some(v) => {
            let mut out: Vec<u32> = Vec::new();
            let mut i: usize = 0;
            while i < v.len()
                invariant
                    0 <= i <= v@.len(),
                    out@ == v@.take(i as int),
                decreases v@.len() - i,
            {
                out.push(v[i]);
                i = i + 1;
                assert(out@ =~= v@.take(i as int));
            }
            assert(out@ =~= v@);
            Some(out)
        },
    }
}

proof fn lemma_records_map_keys(s: Seq<Speaker>, k: Seq<char>)
    ensures
        records_map(s).contains_key(k) <==> exists|i: int| 0 <= i < s.len() && (#[trigger] s[i]).id@ == k,
    decreases s.len(),
{
    if s.len() > 0 {
        let init = s.drop_last();
        lemma_records_map_keys(init, k);
        if records_map(init).contains_key(k) {
            let i = choose|i: int| 0 <= i < init.len() && (#[trigger] init[i]).id@ == k;
            assert(s[i] == init[i]);
        }
        if exists|i: int| 0 <= i < s.len() && (#[trigger] s[i]).id@ == k {
            let i = choose|i: int| 0 <= i < s.len() && (#[trigger] s[i]).id@ == k;
            if i < init.len() {
                assert(init[i] == s[i]);
            }
        }
    }
}

proof fn lemma_records_map_at(s: Seq<Speaker>, i: int)
    requires
        unique_ids(s),
        0 <= i < s.len(),
    ensures
        records_map(s).contains_key(s[i].id@),
        records_map(s)[s[i].id@] == entry_of(s[i]),
    decreases s.len(),
{
    let init = s.drop_last();
    if i < s.len() - 1 {
        assert(init[i] == s[i]);
        assert(unique_ids(init)) by {
            assert forall|a: int, b: int| 0 <= a < b < init.len() implies (#[trigger] init[a]).id@ != (#[trigger] init[b]).id@ by {
                assert(init[a] == s[a] && init[b] == s[b]);
            }
        }
        lemma_records_map_at(init, i);
        assert(s[i].id@ != s[s.len() - 1].id@);
    }
}

proof fn lemma_records_map_update(s: Seq<Speaker>, i: int, sp: Speaker)
    requires
        unique_ids(s),
        0 <= i < s.len(),
        sp.id@ == s[i].id@,
    ensures
        records_map(s.update(i, sp)) == records_map(s).insert(sp.id@, entry_of(sp)),
        unique_ids(s.update(i, sp)),
    decreases s.len(),
{
    let t = s.update(i, sp);
    let init = s.drop_last();
    assert(unique_ids(t)) by {
        assert forall|a: int, b: int| 0 <= a < b < t.len() implies (#[trigger] t[a]).id@ != (#[trigger] t[b]).id@ by {
            assert(s[a].id@ != s[b].id@);
        }
    }
    if i == s.len() - 1 {
        assert(t.drop_last() =~= init);
        assert(records_map(t) =~= records_map(s).insert(sp.id@, entry_of(sp)));
    } else {
        assert(unique_ids(init)) by {
            assert forall|a: int, b: int| 0 <= a < b < init.len() implies (#[trigger] init[a]).id@ != (#[trigger] init[b]).id@ by {
                assert(init[a] == s[a] && init[b] == s[b]);
            }
        }
        assert(init[i] == s[i]);
        lemma_records_map_update(init, i, sp);
        assert(t.drop_last() =~= init.update(i, sp));
        assert(s[i].id@ != s[s.len() - 1].id@);
        assert(records_map(t) =~= records_map(s).insert(sp.id@, entry_of(sp)));
    }
}

/// Speakers by id; ids are unique.
pub struct SpeakerRegistry {
    speakers: Vec<Speaker>,
}

impl SpeakerRegistry {
    pub closed spec fn records_view(&self) -> Seq<Speaker> {
        self.speakers@
    }

    /// The registry as a map from id to what is known of that speaker.
    pub open spec fn view(&self) -> Map<Seq<char>, SpeakerEntry> {
        records_map(self.records_view())
    }

    pub open spec fn wf(&self) -> bool {
        unique_ids(self.records_view())
    }

    pub fn new() -> (r: Self)
        ensures
            r.wf(),
            r.view() == Map::<Seq<char>, SpeakerEntry>::empty(),
    {
        SpeakerRegistry { speakers: Vec::new() }
    }

    /// The position of the record for `id`, if any.
    fn find(&self, id: &String) -> (r: Option<usize>)
        requires
            self.wf(),
        ensures
            match r {
                Some(i) => i < self.records_view().len() && self.records_view()[i as int].id@ == id@,
                None => !self.view().contains_key(id@),
            },
    {
        let mut i: usize = 0;
        while i < self.speakers.len()
            invariant
                0 <= i <= self.speakers@.len(),
                forall|j: int| 0 <= j < i ==> (#[trigger] self.speakers@[j]).id@ != id@,
            decreases self.speakers@.len() - i,
        {
            if self.speakers[i].id == *id {
                return Some(i);
            }
            i = i + 1;
        }
        proof {
            lemma_records_map_keys(self.speakers@, id@);
        }
        None
    }

    /// Sets the name of speaker `id`, creating the speaker (with no embedding)
    /// if it is unknown.
    pub fn add_speaker(&mut self, id: String, name: String)
        requires
            old(self).wf(),
        ensures
            final(self).wf(),
            final(self).view() == add_speaker_spec(old(self).view(), id@, name@),
    {
        match self.find(&id) {
            Some(i) => {
                let ghost s = self.speakers@;
                proof {
                    lemma_records_map_at(s, i as int);
                }
                let embedding = copy_embedding(&self.speakers[i].embedding);
                let sp = Speaker { id, name, embedding };
                self.speakers.set(i, sp);
                proof {
                    lemma_records_map_update(s, i as int, sp);
                    assert(entry_of(sp) == (SpeakerEntry { name: name@, embedding: records_map(s)[id@].embedding }));
                }
            },
            None => {
                let ghost s = self.speakers@;
                let sp = Speaker { id, name, embedding: None };
                self.speakers.push(sp);
                proof {
                    assert(self.speakers@.drop_last() =~= s);
                    assert forall|a: int, b: int| 0 <= a < b < self.speakers@.len() implies (#[trigger] self.speakers@[a]).id@ != (#[trigger] self.speakers@[b]).id@ by {
                        if b == s.len() {
                            assert(self.speakers@[a] == s[a]);
                            lemma_records_map_keys(s, id@);
                        } else {
                            assert(self.speakers@[a] == s[a] && self.speakers@[b] == s[b]);
                        }
                    }
                }
            },
        }
    }

    /// The registered name of speaker `id`, if it is known.
    pub fn get_speaker_name(&self, id: &str) -> (r: Option<String>)
        requires
            self.wf(),
        ensures
            match r {
                Some(n) => self.view().contains_key(id@) && n@ == self.view()[id@].name,
                None => !self.view().contains_key(id@),
            },
    {
        let key = id.to_owned();
        match self.find(&key) {
            Some(i) => {
                proof {
                    lemma_records_map_at(self.speakers@, i as int);
                }
                Some(self.speakers[i].name.clone())
            },
            None => None,
        }
    }

    /// The name to show for speaker `id`: its registered name, or `id` itself
    /// when the speaker is unknown.
    pub fn display_name(&self, id: String) -> (r: String)
        requires
            self.wf(),
        ensures
            r@ == display_name_spec(self.view(), id@),
    {
        match self.get_speaker_name(id.as_str()) {
            Some(n) => n,
            None => id,
        }
    }

    /// The label for a voice print. Matching by embedding is not offered:
    /// every voice print is labelled as a guest, to be renamed later.
    pub fn assign_speaker<E>(&self, _embedding: &[E]) -> (r: String)
        ensures
            r@ == "Guest"@,
    {
        String::from_str("Guest")
    }

    /// The records to persist, one per speaker.
    pub fn records(&self) -> (r: &Vec<Speaker>)
        requires
            self.wf(),
        ensures
            unique_ids(r@),
            records_map(r@) == self.view(),
    {
        &self.speakers
    }

    /// The registry that a list of persisted records describes; where two
    /// records share an id, the later one counts.
    pub fn from_records(records: Vec<Speaker>) -> (r: Self)
        ensures
            r.wf(),
            r.view() == records_map(records@),
    {
        let ghost all = records@;
        let mut rest = records;
        let mut reg = SpeakerRegistry::new();
        while rest.len() > 0
            invariant
                reg.wf(),
                records_map(all) == records_map(rest@).union_prefer_right(reg.view()),
            decreases rest@.len(),
        {
            let ghost before = rest@;
            let sp = rest.pop().unwrap();
            assert(rest@ =~= before.drop_last());
            match reg.find(&sp.id) {
                Some(_) => {
                    proof {
                        lemma_records_map_keys(reg.speakers@, sp.id@);
                        assert(records_map(before) == records_map(rest@).insert(sp.id@, entry_of(sp)));
                        assert(records_map(all) =~= records_map(rest@).union_prefer_right(reg.view()));
                    }
                },
                None => {
                    let ghost s = reg.speakers@;
                    reg.speakers.push(sp);
                    proof {
                        assert(reg.speakers@.drop_last() =~= s);
                        assert forall|a: int, b: int| 0 <= a < b < reg.speakers@.len() implies (#[trigger] reg.speakers@[a]).id@ != (#[trigger] reg.speakers@[b]).id@ by {
                            if b == s.len() {
                                assert(reg.speakers@[a] == s[a]);
                                lemma_records_map_keys(s, sp.id@);
                            } else {
                                assert(reg.speakers@[a] == s[a] && reg.speakers@[b] == s[b]);
                            }
                        }
                        assert(records_map(all) =~= records_map(rest@).union_prefer_right(reg.view()));
                    }
                },
            }
        }
        assert(records_map(all) =~= reg.view());
        reg
    }
}

/// Adding a speaker and then reloading the registry from its persisted
/// records gives back the name just added; every other speaker is kept as
/// it was. Saving and reloading loses nothing.
pub proof fn lemma_registry_round_trip(m: Map<Seq<char>, SpeakerEntry>, records: Seq<Speaker>, id: Seq<char>, name: Seq<char>)
    requires
        records_map(records) == add_speaker_spec(m, id, name),
    ensures
        records_map(records).contains_key(id),
        display_name_spec(records_map(records), id) == name,
        forall|k: Seq<char>| k != id ==> (#[trigger] records_map(records).contains_key(k)) == m.contains_key(k),
        forall|k: Seq<char>| k != id && m.contains_key(k) ==> #[trigger] records_map(records)[k] == m[k],
{
}

/// An id that the registry does not know is shown as itself.
pub proof fn lemma_unknown_speaker_fallback(m: Map<Seq<char>, SpeakerEntry>, id: Seq<char>)
    requires
        !m.contains_key(id),
    ensures
        display_name_spec(m, id) == id,
        display_name_spec(Map::<Seq<char>, SpeakerEntry>::empty(), id) == id,
{
}

} // verus!
