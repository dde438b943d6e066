use vstd::prelude::*;

use crate::result::CoreError;
use crate::vvm_manager::{SpeakerView, VvmManager, VvmMeta};

verus! {

// The synthesis engine handle: the one place that knows which styles the
// engine has loaded.  The handle decides, from the registry, which model file
// backs a requested style; its holder performs the actual native load and
// synthesis calls under the same exclusive lock.  The loaded-styles set grows
// monotonically: there is no unload.

/// The style ids that one model's records declare, concatenated in record
/// order.
pub open spec fn record_style_ids(records: Seq<SpeakerView>) -> Seq<u32>
    decreases records.len(),
{
    if records.len() == 0 {
        Seq::empty()
    } else {
        record_style_ids(records.drop_last()) + records.last().styles.map_values(
            |s: crate::vvm_manager::StyleView| s.id,
        )
    }
}

/// Whether one model declares a style id.
pub open spec fn model_declares(records: Seq<SpeakerView>, style_id: u32) -> bool {
    record_style_ids(records).contains(style_id)
}

/// Whether any model declares a style id.
pub open spec fn some_model_declares(models: Seq<Seq<SpeakerView>>, style_id: u32) -> bool {
    exists|m: int| 0 <= m < models.len() && model_declares(models[m], style_id)
}

/// The index of the first model declaring a style id, or -1 if none does.
pub open spec fn first_model_with(models: Seq<Seq<SpeakerView>>, style_id: u32) -> int
    decreases models.len(),
{
    if models.len() == 0 {
        -1
    } else if model_declares(models.first(), style_id) {
        0
    } else if first_model_with(models.drop_first(), style_id) == -1 {
        -1
    } else {
        first_model_with(models.drop_first(), style_id) + 1
    }
}

/// What `first_model_with` finds: -1 means no model declares the style;
/// otherwise it is the first model index declaring it.
pub proof fn lemma_first_model_with(models: Seq<Seq<SpeakerView>>, style_id: u32)
    ensures
        first_model_with(models, style_id) == -1 ==> !some_model_declares(models, style_id),
        first_model_with(models, style_id) != -1 ==> 0 <= first_model_with(models, style_id)
            < models.len() && model_declares(models[first_model_with(models, style_id)], style_id)
            && forall|m: int|
            0 <= m < first_model_with(models, style_id) ==> !model_declares(models[m], style_id),
    decreases models.len(),
{
    if models.len() > 0 {
        lemma_first_model_with(models.drop_first(), style_id);
        assert(forall|m: int| 0 <= m < models.len() - 1 ==> models.drop_first()[m] == models[m + 1]);
        let rd = first_model_with(models.drop_first(), style_id);
        if !model_declares(models.first(), style_id) {
            if rd == -1 {
                assert forall|m: int|
                    0 <= m < models.len() implies !model_declares(models[m], style_id) by {
                    if m > 0 {
                        assert(models.drop_first()[m - 1] == models[m]);
                    }
                }
            } else {
                assert(first_model_with(models, style_id) == rd + 1);
                assert(models.drop_first()[rd] == models[rd + 1]);
                assert forall|m: int|
                    0 <= m < rd + 1 implies !model_declares(models[m], style_id) by {
                    if m > 0 {
                        assert(models.drop_first()[m - 1] == models[m]);
                    }
                }
            }
        }
    }
}

/// The first model index declaring a style determines `first_model_with`.
pub proof fn lemma_first_model_with_at(models: Seq<Seq<SpeakerView>>, style_id: u32, m: int)
    requires
        0 <= m < models.len(),
        model_declares(models[m], style_id),
        forall|j: int| 0 <= j < m ==> !model_declares(models[j], style_id),
    ensures
        first_model_with(models, style_id) == m,
    decreases models.len(),
{
    if m > 0 {
        assert(forall|j: int| 0 <= j < models.len() - 1 ==> models.drop_first()[j] == models[j + 1]);
        lemma_first_model_with_at(models.drop_first(), style_id, m - 1);
    }
}

/// The loaded-styles set after one `ensure_loaded` call for a style: if some
/// model declares it, every style of the first such model is loaded; else
/// nothing changes.
pub open spec fn after_ensure(loaded: Set<u32>, models: Seq<Seq<SpeakerView>>, style_id: u32) -> Set<
    u32,
> {
    if some_model_declares(models, style_id) {
        loaded.union(record_style_ids(models[first_model_with(models, style_id)]).to_set())
    } else {
        loaded
    }
}

/// The synthesis engine handle's observable state: which styles are loaded.
pub struct EngineHandle {
    loaded: Vec<u32>,
}

impl View for EngineHandle {
    type V = Set<u32>;

    closed spec fn view(&self) -> Set<u32> {
        self.loaded@.to_set()
    }
}

impl EngineHandle {
    /// Consistency with a registry: every loaded style is declared by some
    /// model.  Holds from construction on, since only declared styles are
    /// ever marked loaded.
    pub open spec fn consistent_with(&self, models: Seq<Seq<SpeakerView>>) -> bool {
        forall|s: u32| self@.contains(s) ==> some_model_declares(models, s)
    }

    /// A handle over a freshly started engine: nothing is loaded.
    pub fn new() -> (r: EngineHandle)
        ensures
            r@ == Set::<u32>::empty(),
    {
        proof {
            assert(Seq::<u32>::empty().to_set() =~= Set::<u32>::empty());
        }
        EngineHandle { loaded: Vec::new() }
    }

    /// Whether a style is currently loaded.
    pub fn is_loaded(&self, style_id: u32) -> (r: bool)
        ensures
            r == self@.contains(style_id),
    {
        let mut i: usize = 0;
        while i < self.loaded.len()
            invariant
                i <= self.loaded@.len(),
                forall|j: int| 0 <= j < i ==> self.loaded@[j] != style_id,
            decreases self.loaded@.len() - i,
        {
            if self.loaded[i] == style_id {
                return true;
            }
            i = i + 1;
        }
        proof {
            assert(!self.loaded@.contains(style_id));
        }
        false
    }

    /// Resolves which model backs a style: the index of the first model, in
    /// scan order, declaring it.  Resolving alone loads nothing; fails with
    /// `StyleNotFound` exactly when no model declares the style.
    pub fn resolve_style(&self, manager: &VvmManager, style_id: u32) -> (r: Result<
        usize,
        CoreError,
    >)
        ensures
            match r {
                Ok(m) => some_model_declares(manager@.models, style_id) && m as int
                    == first_model_with(manager@.models, style_id),
                Err(e) => e == CoreError::StyleNotFound && !some_model_declares(
                    manager@.models,
                    style_id,
                ),
            },
    {
        let ghost models = manager@.models;
        let vvms = manager.vvms();
        let mut m: usize = 0;
        while m < vvms.len()
            invariant
                m <= vvms@.len(),
                models == crate::vvm_manager::model_views(vvms@),
                models == manager@.models,
                forall|j: int| 0 <= j < m ==> !model_declares(models[j], style_id),
            decreases vvms@.len() - m,
        {
            let ids = collect_style_ids(&vvms[m]);
            if contains_id(&ids, style_id) {
                proof {
                    lemma_first_model_with_at(models, style_id, m as int);
                }
                return Ok(m);
            }
            m = m + 1;
        }
        proof {
            lemma_first_model_with(models, style_id);
            if some_model_declares(models, style_id) {
                let w = first_model_with(models, style_id);
                assert(!model_declares(models[w], style_id));
            }
        }
        Err(CoreError::StyleNotFound)
    }

    /// Records every style of one model as loaded: the commit step, taken
    /// only after the engine accepted that model, so that the handle never
    /// reports a style loaded that the engine failed to load.
    pub fn mark_model_loaded(&mut self, manager: &VvmManager, model_index: usize)
        requires
            old(self).consistent_with(manager@.models),
            (model_index as int) < manager@.models.len(),
        ensures
            final(self)@ == old(self)@.union(
                record_style_ids(manager@.models[model_index as int]).to_set(),
            ),
            final(self).consistent_with(manager@.models),
    {
        let ghost models = manager@.models;
        let vvms = manager.vvms();
        proof {
            assert(vvms@.len() == models.len());
        }
        let ids = collect_style_ids(&vvms[model_index]);
        proof {
            assert forall|s: u32| ids@.contains(s) implies some_model_declares(models, s) by {
                assert(model_declares(models[model_index as int], s));
            }
        }
        let mut k: usize = 0;
        proof {
            assert(ids@.take(0) =~= Seq::<u32>::empty());
            assert(self@.union(ids@.take(0).to_set()) =~= self@);
        }
        while k < ids.len()
            invariant
                k <= ids@.len(),
                ids@ == record_style_ids(models[model_index as int]),
                0 <= (model_index as int) < models.len(),
                models == manager@.models,
                self@ == old(self)@.union(ids@.take(k as int).to_set()),
                old(self).consistent_with(models),
                forall|s: u32| ids@.contains(s) ==> some_model_declares(models, s),
            decreases ids@.len() - k,
        {
            broadcast use vstd::prelude::Seq::lemma_push_to_set_commute;

            let id = ids[k];
            let ghost before = self@;
            let ghost before_seq = self.loaded@;
            if !self.is_loaded(id) {
                self.loaded.push(id);
                proof {
                    assert(self.loaded@ == before_seq.push(id));
                    assert(self.loaded@.to_set() =~= before_seq.to_set().insert(id));
                    assert(self@ == before.insert(id));
                }
            } else {
                proof {
                    assert(before.insert(id) =~= before);
                }
            }
            proof {
                assert(ids@.take(k + 1) =~= ids@.take(k as int).push(ids@[k as int]));
                assert(ids@.take(k + 1).to_set() == ids@.take(k as int).push(
                    ids@[k as int],
                ).to_set());
                assert(ids@.take(k as int).push(ids@[k as int]).to_set() =~= ids@.take(
                    k as int,
                ).to_set().insert(id));
                assert(self@ =~= old(self)@.union(ids@.take(k + 1).to_set()));
            }
            k = k + 1;
        }
        proof {
            assert(ids@.take(ids@.len() as int) =~= ids@);
            assert(self@ == old(self)@.union(ids@.to_set()));
            assert(self@ =~= old(self)@.union(
                record_style_ids(models[model_index as int]).to_set(),
            ));
            assert forall|s: u32| self@.contains(s) implies some_model_declares(models, s) by {
                if !old(self)@.contains(s) {
                    assert(ids@.to_set().contains(s));
                    assert(ids@.contains(s));
                }
            }
        }
    }

    /// Resolves which model backs a style and records that model's styles as
    /// loaded, in one step.  Returns the index of the model the caller hands
    /// to the engine (loading an already-loaded model is a no-op engine-side);
    /// fails with `StyleNotFound`, changing nothing, exactly when no model
    /// declares the style.  A holder whose load can itself fail takes the two
    /// steps apart: `resolve_style`, the load, then `mark_model_loaded` once
    /// the engine accepted the model.
    pub fn ensure_loaded(&mut self, manager: &VvmManager, style_id: u32) -> (r: Result<
        usize,
        CoreError,
    >)
        requires
            old(self).consistent_with(manager@.models),
        ensures
            final(self)@ == after_ensure(old(self)@, manager@.models, style_id),
            final(self).consistent_with(manager@.models),
            match r {
                Ok(m) => some_model_declares(manager@.models, style_id) && m as int
                    == first_model_with(manager@.models, style_id),
                Err(e) => e == CoreError::StyleNotFound && !some_model_declares(
                    manager@.models,
                    style_id,
                ),
            },
    {
        match self.resolve_style(manager, style_id) {
            Ok(m) => {
                proof {
                    lemma_first_model_with(manager@.models, style_id);
                    if first_model_with(manager@.models, style_id) == -1 {
                        assert(false);
                    }
                }
                self.mark_model_loaded(manager, m);
                Ok(m)
            },
            Err(e) => Err(e),
        }
    }
}

/// Every style id that one model's records declare, in record order.
fn collect_style_ids(model: &VvmMeta) -> (r: Vec<u32>)
    ensures
        r@ == record_style_ids(model@),
{
    let mut r: Vec<u32> = Vec::new();
    let mut i: usize = 0;
    proof {
        assert(model.metas@.take(0) =~= Seq::<crate::vvm_manager::SpeakerMeta>::empty());
        assert(r@ =~= record_style_ids(crate::vvm_manager::speaker_views(model.metas@.take(0))));
    }
    while i < model.metas.len()
        invariant
            i <= model.metas@.len(),
            r@ == record_style_ids(crate::vvm_manager::speaker_views(model.metas@.take(i as int))),
        decreases model.metas@.len() - i,
    {
        let meta = &model.metas[i];
        let ghost record_before = r@;
        let mut j: usize = 0;
        while j < meta.styles.len()
            invariant
                j <= meta.styles@.len(),
                r@ == record_before + crate::vvm_manager::style_views(
                    meta.styles@.take(j as int),
                ).map_values(|s: crate::vvm_manager::StyleView| s.id),
            decreases meta.styles@.len() - j,
        {
            r.push(meta.styles[j].id);
            proof {
                assert(r@ =~= record_before + crate::vvm_manager::style_views(
                    meta.styles@.take(j + 1),
                ).map_values(|s: crate::vvm_manager::StyleView| s.id));
            }
            j = j + 1;
        }
        proof {
            assert(meta.styles@.take(meta.styles@.len() as int) =~= meta.styles@);
            let ghost views = crate::vvm_manager::speaker_views(model.metas@.take(i + 1));
            assert(views.drop_last() =~= crate::vvm_manager::speaker_views(
                model.metas@.take(i as int),
            ));
            assert(views.last() == model.metas@[i as int]@);
            assert(r@ =~= record_style_ids(views));
        }
        i = i + 1;
    }
    proof {
        assert(model.metas@.take(model.metas@.len() as int) =~= model.metas@);
    }
    r
}

/// Whether a style id sequence holds an id.
fn contains_id(ids: &Vec<u32>, style_id: u32) -> (r: bool)
    ensures
        r == ids@.contains(style_id),
{
    let mut i: usize = 0;
    while i < ids.len()
        invariant
            i <= ids@.len(),
            forall|j: int| 0 <= j < i ==> ids@[j] != style_id,
        decreases ids@.len() - i,
    {
        if ids[i] == style_id {
            return true;
        }
        i = i + 1;
    }
    false
}

/// Law: right after a successful `ensure_loaded` for a style declared by some
/// model, `is_loaded` reports that style as loaded.
pub proof fn lemma_ensure_then_loaded(loaded: Set<u32>, models: Seq<Seq<SpeakerView>>, style_id: u32)
    requires
        some_model_declares(models, style_id),
    ensures
        after_ensure(loaded, models, style_id).contains(style_id),
{
    lemma_first_model_with(models, style_id);
    if first_model_with(models, style_id) == -1 {
        assert(false);
    }
    let m = first_model_with(models, style_id);
    assert(record_style_ids(models[m]).to_set().contains(style_id));
}

/// Law: `ensure_loaded` is idempotent — a second call for the same style
/// leaves the loaded-styles set exactly as the first left it, with no further
/// observable side effect.
pub proof fn lemma_ensure_idempotent(loaded: Set<u32>, models: Seq<Seq<SpeakerView>>, style_id: u32)
    ensures
        after_ensure(after_ensure(loaded, models, style_id), models, style_id) == after_ensure(
            loaded,
            models,
            style_id,
        ),
{
    if some_model_declares(models, style_id) {
        let s = record_style_ids(models[first_model_with(models, style_id)]).to_set();
        assert(loaded.union(s).union(s) =~= loaded.union(s));
    }
}

/// Law: for a style id absent from every model, `ensure_loaded` changes
/// nothing (and its ensures give the `StyleNotFound` failure), and a handle
/// whose loaded styles all come from the models never reports it loaded.
pub proof fn lemma_absent_never_loaded(loaded: Set<u32>, models: Seq<Seq<SpeakerView>>, style_id: u32)
    requires
        !some_model_declares(models, style_id),
        forall|s: u32| loaded.contains(s) ==> some_model_declares(models, s),
    ensures
        after_ensure(loaded, models, style_id) == loaded,
        !loaded.contains(style_id),
        !after_ensure(loaded, models, style_id).contains(style_id),
{
}

} // verus!
