use vstd::prelude::*;

verus! {

// The voice model registry: built once at startup from the metadata records
// of every model file found on disk, in scan order, and immutable afterwards.
// Records are merged into one catalog entry per speaker uuid; a speaker whose
// styles are spread over several records gets their style lists concatenated
// in record order.

/// One synthesizable style of a speaker.
pub struct StyleMeta {
    pub id: u32,
    pub name: String,
}

/// One speaker of the catalog, and also the shape of one metadata record of a
/// model file (a record lists the styles that this model backs).
pub struct SpeakerMeta {
    pub name: String,
    pub styles: Vec<StyleMeta>,
    pub version: String,
    pub speaker_uuid: String,
}

/// The metadata of one voice model file: its speaker records in file order.
pub struct VvmMeta {
    pub metas: Vec<SpeakerMeta>,
}

/// The mathematical content of a style.
pub ghost struct StyleView {
    pub id: u32,
    pub name: Seq<char>,
}

/// The mathematical content of a speaker or of a metadata record.
pub ghost struct SpeakerView {
    pub name: Seq<char>,
    pub styles: Seq<StyleView>,
    pub version: Seq<char>,
    pub speaker_uuid: Seq<char>,
}

impl View for StyleMeta {
    type V = StyleView;

    open spec fn view(&self) -> StyleView {
        StyleView { id: self.id, name: self.name@ }
    }
}

/// The contents of a style sequence.
pub open spec fn style_views(s: Seq<StyleMeta>) -> Seq<StyleView> {
    s.map_values(|x: StyleMeta| x@)
}

impl View for SpeakerMeta {
    type V = SpeakerView;

    open spec fn view(&self) -> SpeakerView {
        SpeakerView {
            name: self.name@,
            styles: style_views(self.styles@),
            version: self.version@,
            speaker_uuid: self.speaker_uuid@,
        }
    }
}

/// The contents of a speaker sequence.
pub open spec fn speaker_views(s: Seq<SpeakerMeta>) -> Seq<SpeakerView> {
    s.map_values(|x: SpeakerMeta| x@)
}

impl View for VvmMeta {
    type V = Seq<SpeakerView>;

    open spec fn view(&self) -> Seq<SpeakerView> {
        speaker_views(self.metas@)
    }
}

/// The contents of a model sequence: each model's records.
pub open spec fn model_views(s: Seq<VvmMeta>) -> Seq<Seq<SpeakerView>> {
    s.map_values(|x: VvmMeta| x@)
}

impl Clone for StyleMeta {
    /// An exact copy.
    fn clone(&self) -> (r: Self)
        ensures
            r == *self,
    {
        StyleMeta { id: self.id, name: self.name.clone() }
    }
}

impl Clone for SpeakerMeta {
    /// A copy with the same content.
    fn clone(&self) -> (r: Self)
        ensures
            r@ == self@,
    {
        let styles = self.styles.clone();
        proof {
            assert forall|i: int| 0 <= i < styles@.len() implies styles@[i] == self.styles@[i] by {
                assert(cloned::<StyleMeta>(self.styles[i], styles[i]));
            }
            assert(styles@ =~= self.styles@);
        }
        SpeakerMeta {
            name: self.name.clone(),
            styles,
            version: self.version.clone(),
            speaker_uuid: self.speaker_uuid.clone(),
        }
    }
}

/// Every metadata record of a model sequence, in scan order.
pub open spec fn flatten_records(models: Seq<Seq<SpeakerView>>) -> Seq<SpeakerView>
    decreases models.len(),
{
    if models.len() == 0 {
        Seq::empty()
    } else {
        flatten_records(models.drop_last()) + models.last()
    }
}

/// The index of the first entry holding a speaker uuid, or -1 if none does.
pub open spec fn uuid_index(sp: Seq<SpeakerView>, uuid: Seq<char>) -> int
    decreases sp.len(),
{
    if sp.len() == 0 {
        -1
    } else if sp.first().speaker_uuid == uuid {
        0
    } else if uuid_index(sp.drop_first(), uuid) == -1 {
        -1
    } else {
        uuid_index(sp.drop_first(), uuid) + 1
    }
}

/// What `uuid_index` finds: -1 means no entry holds the uuid; otherwise it is
/// the first index holding it.
pub proof fn lemma_uuid_index(sp: Seq<SpeakerView>, uuid: Seq<char>)
    ensures
        uuid_index(sp, uuid) == -1 ==> forall|i: int|
            0 <= i < sp.len() ==> sp[i].speaker_uuid != uuid,
        uuid_index(sp, uuid) != -1 ==> 0 <= uuid_index(sp, uuid) < sp.len() && sp[uuid_index(
            sp,
            uuid,
        )].speaker_uuid == uuid && forall|i: int|
            0 <= i < uuid_index(sp, uuid) ==> sp[i].speaker_uuid != uuid,
    decreases sp.len(),
{
    if sp.len() > 0 {
        lemma_uuid_index(sp.drop_first(), uuid);
        assert(forall|i: int| 0 <= i < sp.len() - 1 ==> sp.drop_first()[i] == sp[i + 1]);
        let rd = uuid_index(sp.drop_first(), uuid);
        if sp.first().speaker_uuid != uuid {
            if rd == -1 {
                assert forall|i: int| 0 <= i < sp.len() implies sp[i].speaker_uuid != uuid by {
                    if i > 0 {
                        assert(sp.drop_first()[i - 1] == sp[i]);
                    }
                }
            } else {
                assert(uuid_index(sp, uuid) == rd + 1);
                assert(sp.drop_first()[rd] == sp[rd + 1]);
                assert forall|i: int| 0 <= i < rd + 1 implies sp[i].speaker_uuid != uuid by {
                    if i > 0 {
                        assert(sp.drop_first()[i - 1] == sp[i]);
                    }
                }
            }
        }
    }
}

/// The first index holding a uuid determines `uuid_index`.
pub proof fn lemma_uuid_index_at(sp: Seq<SpeakerView>, uuid: Seq<char>, i: int)
    requires
        0 <= i < sp.len(),
        sp[i].speaker_uuid == uuid,
        forall|j: int| 0 <= j < i ==> sp[j].speaker_uuid != uuid,
    ensures
        uuid_index(sp, uuid) == i,
    decreases sp.len(),
{
    if i > 0 {
        assert(forall|j: int| 0 <= j < sp.len() - 1 ==> sp.drop_first()[j] == sp[j + 1]);
        lemma_uuid_index_at(sp.drop_first(), uuid, i - 1);
    }
}

/// The catalog that a record sequence merges to: a record of a uuid seen
/// before appends its styles to that entry; a new uuid appends a new entry.
pub open spec fn merge_records(rs: Seq<SpeakerView>) -> Seq<SpeakerView>
    decreases rs.len(),
{
    if rs.len() == 0 {
        Seq::empty()
    } else {
        let prev = merge_records(rs.drop_last());
        let r = rs.last();
        let i = uuid_index(prev, r.speaker_uuid);
        if i >= 0 {
            prev.update(i, SpeakerView { styles: prev[i].styles + r.styles, ..prev[i] })
        } else {
            prev.push(r)
        }
    }
}

/// Whether the speaker uuids of a catalog are pairwise distinct.
pub open spec fn unique_speaker_uuids(sp: Seq<SpeakerView>) -> bool {
    forall|i: int, j: int| 0 <= i < j < sp.len() ==> sp[i].speaker_uuid != sp[j].speaker_uuid
}

/// Law: however the records repeat their uuids, the merged catalog never
/// holds two entries with one speaker uuid.
pub proof fn lemma_merge_unique(rs: Seq<SpeakerView>)
    ensures
        unique_speaker_uuids(merge_records(rs)),
    decreases rs.len(),
{
    if rs.len() > 0 {
        lemma_merge_unique(rs.drop_last());
        let prev = merge_records(rs.drop_last());
        let r = rs.last();
        let i = uuid_index(prev, r.speaker_uuid);
        lemma_uuid_index(prev, r.speaker_uuid);
        if i >= 0 {
            let merged = prev.update(i, SpeakerView { styles: prev[i].styles + r.styles, ..prev[i] });
            assert(forall|j: int|
                0 <= j < merged.len() ==> merged[j].speaker_uuid == prev[j].speaker_uuid);
        }
    }
}

/// Law: for records with pairwise distinct speaker uuids — models whose
/// speakers are disjoint — merging changes nothing: one catalog entry per
/// record, in scan order, with exactly that record's styles.
pub proof fn lemma_merge_disjoint_records(rs: Seq<SpeakerView>)
    requires
        forall|i: int, j: int| 0 <= i < j < rs.len() ==> rs[i].speaker_uuid != rs[j].speaker_uuid,
    ensures
        merge_records(rs) == rs,
    decreases rs.len(),
{
    if rs.len() > 0 {
        assert(forall|i: int, j: int|
            0 <= i < j < rs.len() - 1 ==> rs.drop_last()[i].speaker_uuid
                != rs.drop_last()[j].speaker_uuid);
        lemma_merge_disjoint_records(rs.drop_last());
        let r = rs.last();
        lemma_uuid_index(rs.drop_last(), r.speaker_uuid);
        if uuid_index(rs.drop_last(), r.speaker_uuid) != -1 {
            let i = uuid_index(rs.drop_last(), r.speaker_uuid);
            assert(rs[i].speaker_uuid == rs[rs.len() - 1].speaker_uuid);
            assert(false);
        }
        assert(rs.drop_last().push(r) =~= rs);
    }
}

/// The view of the registry: the records of every model, in scan order, and
/// the merged speaker catalog.
pub ghost struct ManagerView {
    pub models: Seq<Seq<SpeakerView>>,
    pub speakers: Seq<SpeakerView>,
}

/// The voice model registry.
pub struct VvmManager {
    vvms: Vec<VvmMeta>,
    speakers: Vec<SpeakerMeta>,
}

impl View for VvmManager {
    type V = ManagerView;

    closed spec fn view(&self) -> ManagerView {
        ManagerView { models: model_views(self.vvms@), speakers: speaker_views(self.speakers@) }
    }
}

impl VvmManager {
    /// Builds the registry from the metadata of the model files found, in
    /// scan order: the catalog is the merge of every record, keyed by
    /// speaker uuid, and its uuids are unique.
    pub fn new(vvms: Vec<VvmMeta>) -> (r: VvmManager)
        ensures
            r@.models == model_views(vvms@),
            r@.speakers == merge_records(flatten_records(model_views(vvms@))),
            unique_speaker_uuids(r@.speakers),
    {
        let ghost models = model_views(vvms@);
        let mut records: Vec<SpeakerMeta> = Vec::new();
        let mut a: usize = 0;
        proof {
            assert(models.take(0) =~= Seq::<Seq<SpeakerView>>::empty());
            assert(speaker_views(records@) =~= flatten_records(models.take(0)));
        }
        while a < vvms.len()
            invariant
                a <= vvms@.len(),
                models == model_views(vvms@),
                speaker_views(records@) == flatten_records(models.take(a as int)),
            decreases vvms@.len() - a,
        {
            let model = &vvms[a];
            let mut b: usize = 0;
            proof {
                assert(model.metas@.take(0) =~= Seq::<SpeakerMeta>::empty());
                assert(speaker_views(records@) + speaker_views(model.metas@.take(0))
                    =~= speaker_views(records@));
            }
            let ghost records_before = records@;
            while b < model.metas.len()
                invariant
                    b <= model.metas@.len(),
                    speaker_views(records@) == speaker_views(records_before) + speaker_views(
                        model.metas@.take(b as int),
                    ),
                decreases model.metas@.len() - b,
            {
                records.push(model.metas[b].clone());
                proof {
                    assert(records@.drop_last() =~= records@.take(records@.len() - 1));
                    assert(model.metas@.take(b + 1).drop_last() =~= model.metas@.take(b as int));
                    assert(speaker_views(records@) =~= speaker_views(records@.drop_last()).push(
                        records@.last()@,
                    ));
                    assert(speaker_views(records_before) + speaker_views(
                        model.metas@.take(b + 1),
                    ) =~= (speaker_views(records_before) + speaker_views(
                        model.metas@.take(b as int),
                    )).push(model.metas@[b as int]@));
                    assert(records@.drop_last() == records@.subrange(0, records@.len() - 1));
                }
                b = b + 1;
            }
            proof {
                assert(model.metas@.take(model.metas@.len() as int) =~= model.metas@);
                assert(models.take(a + 1).drop_last() =~= models.take(a as int));
                assert(models.take(a + 1).last() == models[a as int]);
                assert(models[a as int] == model@);
                assert(speaker_views(records@) =~= flatten_records(models.take(a + 1)));
            }
            a = a + 1;
        }
        proof {
            assert(models.take(models.len() as int) =~= models);
        }
        // Merge the records into the catalog, keyed by speaker uuid.
        let ghost recs = speaker_views(records@);
        let mut speakers: Vec<SpeakerMeta> = Vec::new();
        let mut k: usize = 0;
        proof {
            assert(recs.take(0) =~= Seq::<SpeakerView>::empty());
            assert(speaker_views(speakers@) =~= merge_records(recs.take(0)));
        }
        while k < records.len()
            invariant
                k <= records@.len(),
                recs == speaker_views(records@),
                speaker_views(speakers@) == merge_records(recs.take(k as int)),
            decreases records@.len() - k,
        {
            let rec = &records[k];
            let ghost prev = speaker_views(speakers@);
            proof {
                assert(recs.take(k + 1).drop_last() =~= recs.take(k as int));
                assert(recs.take(k + 1).last() == rec@);
            }
            match find_speaker_index(&speakers, &rec.speaker_uuid) {
                Some(i) => {
                    proof {
                        lemma_uuid_index_at(prev, rec@.speaker_uuid, i as int);
                    }
                    let mut entry = speakers.remove(i);
                    let mut extra = rec.styles.clone();
                    proof {
                        assert(extra@ =~= rec.styles@);
                    }
                    entry.styles.append(&mut extra);
                    proof {
                        assert(style_views(entry.styles@) =~= prev[i as int].styles
                            + rec@.styles);
                    }
                    speakers.insert(i, entry);
                    proof {
                        assert(speakers@ =~= speakers@.subrange(0, i as int).push(entry).add(
                            speakers@.subrange(i + 1, speakers@.len() as int),
                        ));
                        assert(speaker_views(speakers@) =~= prev.update(
                            i as int,
                            SpeakerView {
                                styles: prev[i as int].styles + rec@.styles,
                                ..prev[i as int]
                            },
                        ));
                    }
                },
                None => {
                    proof {
                        lemma_uuid_index(prev, rec@.speaker_uuid);
                        if uuid_index(prev, rec@.speaker_uuid) != -1 {
                            assert(false);
                        }
                    }
                    speakers.push(rec.clone());
                    proof {
                        assert(speaker_views(speakers@) =~= prev.push(rec@));
                    }
                },
            }
            k = k + 1;
        }
        proof {
            assert(recs.take(records@.len() as int) =~= recs);
            lemma_merge_unique(recs);
        }
        VvmManager { vvms, speakers }
    }

    /// The merged speaker catalog.
    pub fn speakers(&self) -> (r: &Vec<SpeakerMeta>)
        ensures
            speaker_views(r@) == self@.speakers,
    {
        &self.speakers
    }

    /// The catalog entry holding a speaker uuid, if any.
    pub fn speaker(&self, speaker_uuid: &str) -> (r: Option<&SpeakerMeta>)
        ensures
            match r {
                Some(s) => exists|i: int|
                    0 <= i < self@.speakers.len() && self@.speakers[i] == s@ && s@.speaker_uuid
                        == speaker_uuid@,
                None => forall|i: int|
                    0 <= i < self@.speakers.len() ==> self@.speakers[i].speaker_uuid
                        != speaker_uuid@,
            },
    {
        let mut i: usize = 0;
        while i < self.speakers.len()
            invariant
                i <= self.speakers@.len(),
                forall|j: int|
                    0 <= j < i ==> speaker_views(self.speakers@)[j].speaker_uuid != speaker_uuid@,
            decreases self.speakers@.len() - i,
        {
            if str_equal(self.speakers[i].speaker_uuid.as_str(), speaker_uuid) {
                proof {
                    assert(self@.speakers[i as int] == self.speakers@[i as int]@);
                    assert(self@.speakers[i as int].speaker_uuid == speaker_uuid@);
                }
                return Some(&self.speakers[i]);
            }
            i = i + 1;
        }
        None
    }

    /// The metadata records of every model, for resolving load targets.
    pub fn vvms(&self) -> (r: &Vec<VvmMeta>)
        ensures
            model_views(r@) == self@.models,
    {
        &self.vvms
    }
}

/// The first catalog index holding a speaker uuid.
fn find_speaker_index(speakers: &Vec<SpeakerMeta>, speaker_uuid: &String) -> (r: Option<usize>)
    ensures
        match r {
            Some(i) => i < speakers@.len() && speakers@[i as int].speaker_uuid@ == speaker_uuid@
                && forall|j: int|
                0 <= j < i ==> speakers@[j].speaker_uuid@ != speaker_uuid@,
            None => forall|j: int|
                0 <= j < speakers@.len() ==> speakers@[j].speaker_uuid@ != speaker_uuid@,
        },
{
    let mut i: usize = 0;
    while i < speakers.len()
        invariant
            i <= speakers@.len(),
            forall|j: int| 0 <= j < i ==> speakers@[j].speaker_uuid@ != speaker_uuid@,
        decreases speakers@.len() - i,
    {
        if speakers[i].speaker_uuid.eq(speaker_uuid) {
            return Some(i);
        }
        i = i + 1;
    }
    None
}

/// Whether two strings hold the same characters.
pub fn str_equal(a: &str, b: &str) -> (r: bool)
    ensures
        r == (a@ == b@),
{
    let a_len = a.unicode_len();
    let b_len = b.unicode_len();
    if a_len != b_len {
        proof {
            assert(a@ != b@);
        }
        return false;
    }
    let mut i: usize = 0;
    while i < a_len
        invariant
            i <= a_len,
            a_len == a@.len(),
            a@.len() == b@.len(),
            forall|j: int| 0 <= j < i ==> a@[j] == b@[j],
        decreases a_len - i,
    {
        if a.get_char(i) != b.get_char(i) {
            return false;
        }
        i = i + 1;
    }
    proof {
        assert(a@ =~= b@);
    }
    true
}

} // verus!
