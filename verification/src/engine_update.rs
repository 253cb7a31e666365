use vstd::prelude::*;

use crate::engine::{
    record_update_results, render_pairs, results_known, runnable_ids, sketches_to_build, sketches_to_render,
    sketches_to_update, status_after_results, status_views, unbuilt_ids, SketchStatus, SketchStatusView,
    UpdateResult,
};
use crate::id_map::IdMap;
use crate::name_map::lemma_push_contains;

verus! {

/// The stores taken out of `m` for the sketches `ids`, in order.
pub open spec fn taken<S>(m: Map<u128, S>, ids: Seq<u128>) -> Seq<(u128, S)> {
    Seq::new(ids.len(), |i: int| (ids[i], m[ids[i]]))
}

/// `m` with each store of `pairs` put under its sketch's id, in order.
pub open spec fn stored<S>(m: Map<u128, S>, pairs: Seq<(u128, S)>) -> Map<u128, S>
    decreases pairs.len(),
{
    if pairs.len() == 0 {
        m
    } else {
        stored(m, pairs.drop_last()).insert(pairs.last().0, pairs.last().1)
    }
}

/// Storing pairs whose ids are not in `m` adds exactly them.
proof fn lemma_stored_taken<S>(m: Map<u128, S>, rest: Map<u128, S>, ids: Seq<u128>)
    requires
        ids.no_duplicates(),
        forall|i: int| 0 <= i < ids.len() ==> #[trigger] m.contains_key(ids[i]),
        rest == m.remove_keys(ids.to_set()),
    ensures
        stored(rest, taken(m, ids)) == m.restrict(rest.dom().union(ids.to_set())),
    decreases ids.len(),
{
    if ids.len() == 0 {
        assert(m.restrict(rest.dom().union(ids.to_set())) =~= rest);
    } else {
        let p = ids.drop_last();
        let last = ids.last();
        let rest_p = m.remove_keys(p.to_set());
        assert forall|i: int| 0 <= i < p.len() implies #[trigger] m.contains_key(p[i]) by {
            assert(p[i] == ids[i]);
        }
        lemma_stored_taken(m, rest_p, p);
        assert(ids =~= p.push(last));
        assert(ids.to_set() =~= p.to_set().insert(last)) by {
            assert forall|x: u128| ids.to_set().contains(x) <==> p.to_set().insert(last).contains(x) by {
                lemma_push_contains(p, last, x);
            }
        }
        assert(!p.contains(last)) by {
            if p.contains(last) {
                let j = choose|j: int| 0 <= j < p.len() && p[j] == last;
                assert(ids[j] == ids[ids.len() - 1]);
            }
        }
        assert(rest =~= rest_p.remove(last));
        assert(taken(m, ids).drop_last() =~= taken(m, p));
        assert(taken(m, ids).last() == (last, m[last]));
        lemma_stored_other(rest, rest_p, taken(m, p), last, p);
        assert(stored(rest, taken(m, ids)) =~= m.restrict(rest.dom().union(ids.to_set())));
    }
}

/// Storing pairs none of which is about `last` into two maps that differ
/// only at `last` keeps them differing only there.
proof fn lemma_stored_other<S>(a: Map<u128, S>, b: Map<u128, S>, pairs: Seq<(u128, S)>, last: u128, ids: Seq<u128>)
    requires
        a == b.remove(last),
        pairs.len() == ids.len(),
        forall|i: int| 0 <= i < pairs.len() ==> #[trigger] pairs[i].0 == ids[i],
        !ids.contains(last),
    ensures
        stored(a, pairs) == stored(b, pairs).remove(last),
    decreases pairs.len(),
{
    if pairs.len() > 0 {
        let p = pairs.drop_last();
        let q = ids.drop_last();
        assert forall|i: int| 0 <= i < p.len() implies #[trigger] p[i].0 == q[i] by {
            assert(p[i] == pairs[i]);
        }
        if q.contains(last) {
            let j = choose|j: int| 0 <= j < q.len() && q[j] == last;
            assert(ids[j] == last);
        }
        lemma_stored_other(a, b, p, last, q);
        assert(pairs.last().0 == ids[ids.len() - 1]);
        assert(stored(a, pairs) =~= stored(b, pairs).remove(last));
    }
}

/// Taking out the stores of distinct sketches and putting each back under
/// its own id gives back the stores as they were.
pub proof fn law_stores_go_back<S>(m: Map<u128, S>, ids: Seq<u128>)
    requires
        ids.no_duplicates(),
        forall|i: int| 0 <= i < ids.len() ==> #[trigger] m.contains_key(ids[i]),
    ensures
        stored(m.remove_keys(ids.to_set()), taken(m, ids)) == m,
{
    let rest = m.remove_keys(ids.to_set());
    lemma_stored_taken(m, rest, ids);
    assert(m.restrict(rest.dom().union(ids.to_set())) =~= m);
}

/// The store of each sketch, by sketch id; `S` is a store.
pub struct SketchStores<S> {
    stores: IdMap<u128, S>,
}

impl<S> View for SketchStores<S> {
    type V = Map<u128, S>;

    closed spec fn view(&self) -> Map<u128, S> {
        self.stores@
    }
}

impl<S> SketchStores<S> {
    pub fn new() -> (r: Self)
        ensures
            r@ == Map::<u128, S>::empty(),
    {
        SketchStores { stores: IdMap::new() }
    }

    /// Keeps `store` as the store of the sketch `id`.
    pub fn insert(&mut self, id: u128, store: S)
        ensures
            final(self)@ == old(self)@.insert(id, store),
    {
        self.stores.insert(id, store);
    }

    /// Forgets the store of the sketch `id`, handing it back if there was
    /// one.
    pub fn remove(&mut self, id: u128) -> (r: Option<S>)
        ensures
            final(self)@ == old(self)@.remove(id),
            r is Some <==> old(self)@.contains_key(id),
            r matches Some(s) ==> s == old(self)@[id],
    {
        self.stores.remove(id)
    }

    /// Whether the sketch `id` has a store.
    pub fn contains(&self, id: u128) -> (r: bool)
        ensures
            r == self@.contains_key(id),
    {
        self.stores.contains(id)
    }

    /// Takes out the stores of the sketches `ids`, in order.
    pub fn take_for(&mut self, ids: &Vec<u128>) -> (r: Vec<(u128, S)>)
        requires
            ids@.no_duplicates(),
            forall|i: int| 0 <= i < ids@.len() ==> #[trigger] old(self)@.contains_key(ids@[i]),
        ensures
            r@ == taken(old(self)@, ids@),
            final(self)@ == old(self)@.remove_keys(ids@.to_set()),
    {
        let ghost start = self@;
        let mut r: Vec<(u128, S)> = Vec::new();
        let mut i: usize = 0;
        while i < ids.len()
            invariant
                i <= ids@.len(),
                ids@.no_duplicates(),
                forall|j: int| 0 <= j < ids@.len() ==> #[trigger] start.contains_key(ids@[j]),
                r@ == taken(start, ids@.take(i as int)),
                self@ == start.remove_keys(ids@.take(i as int).to_set()),
            decreases ids@.len() - i,
        {
            let id = ids[i];
            proof {
                assert(ids@.take(i + 1) =~= ids@.take(i as int).push(id));
                assert(ids@.take(i + 1).to_set() =~= ids@.take(i as int).to_set().insert(id)) by {
                    assert forall|x: u128| ids@.take(i + 1).to_set().contains(x) <==> ids@.take(i as int).to_set().insert(id).contains(x) by {
                        lemma_push_contains(ids@.take(i as int), id, x);
                    }
                }
                assert(!ids@.take(i as int).contains(id)) by {
                    if ids@.take(i as int).contains(id) {
                        let j = choose|j: int| 0 <= j < i && ids@.take(i as int)[j] == id;
                        assert(ids@[j] == ids@[i as int]);
                    }
                }
                assert(start.contains_key(ids@[i as int]));
                assert(self@.contains_key(id));
            }
            match self.stores.remove(id) {
                Some(s) => {
                    r.push((id, s));
                },
                None => {
                    proof {
                        assert(false);
                    }
                },
            }
            proof {
                assert(r@ =~= taken(start, ids@.take(i + 1)));
                assert(self@ =~= start.remove_keys(ids@.take(i + 1).to_set()));
            }
            i = i + 1;
        }
        proof {
            assert(ids@.take(ids@.len() as int) =~= ids@);
        }
        r
    }

    /// Puts each store of `returned` back under its sketch's id, in order.
    pub fn put_back(&mut self, returned: Vec<(u128, S)>)
        ensures
            final(self)@ == stored(old(self)@, returned@),
    {
        let ghost start = self@;
        let ghost all = returned@;
        let n = returned.len();
        let mut rest = returned;
        let mut i: usize = 0;
        while rest.len() > 0
            invariant
                all.len() == n,
                i + rest@.len() == all.len(),
                rest@ == all.skip(i as int),
                self@ == stored(start, all.take(i as int)),
            decreases rest@.len(),
        {
            let (id, store) = rest.remove(0);
            proof {
                assert(all.take(i + 1).drop_last() =~= all.take(i as int));
                assert(all.take(i + 1).last() == all[i as int]);
            }
            self.stores.insert(id, store);
            i = i + 1;
            proof {
                assert(rest@ =~= all.skip(i as int));
            }
        }
        proof {
            assert(all.take(i as int) =~= all);
        }
    }
}

/// No two sketches share an id.
pub open spec fn ids_distinct(s: Seq<SketchStatusView>) -> bool {
    forall|i: int, j: int| 0 <= i < j < s.len() ==> (#[trigger] s[i]).id != (#[trigger] s[j]).id
}

/// A sketch's status once the sketches `ids` were built.
pub open spec fn built_if_listed(s: SketchStatusView, ids: Seq<u128>) -> SketchStatusView {
    if ids.contains(s.id) {
        SketchStatusView { is_built: true, ..s }
    } else {
        s
    }
}

/// The sketches that run are some of the sketches, each once when their
/// ids are distinct.
proof fn lemma_runnable_ids(s: Seq<SketchStatusView>)
    ensures
        forall|k: u128| #[trigger] runnable_ids(s).contains(k) ==> exists|j: int| 0 <= j < s.len() && s[j].id == k,
        ids_distinct(s) ==> runnable_ids(s).no_duplicates(),
    decreases s.len(),
{
    if s.len() > 0 {
        let p = s.drop_last();
        lemma_runnable_ids(p);
        let r = runnable_ids(s);
        let rp = runnable_ids(p);
        assert forall|k: u128| #[trigger] r.contains(k) implies exists|j: int| 0 <= j < s.len() && s[j].id == k by {
            if s.last().is_enabled && s.last().is_built {
                lemma_push_contains(rp, s.last().id, k);
            }
            if rp.contains(k) {
                let j = choose|j: int| 0 <= j < p.len() && p[j].id == k;
                assert(s[j] == p[j]);
            } else {
                assert(s[s.len() - 1].id == k);
            }
        }
        if ids_distinct(s) {
            assert(ids_distinct(p)) by {
                assert forall|i: int, j: int| 0 <= i < j < p.len() implies (#[trigger] p[i]).id != (#[trigger] p[j]).id by {
                    assert(p[i] == s[i] && p[j] == s[j]);
                }
            }
            if s.last().is_enabled && s.last().is_built {
                assert(!rp.contains(s.last().id)) by {
                    if rp.contains(s.last().id) {
                        let j = choose|j: int| 0 <= j < p.len() && p[j].id == s.last().id;
                        assert(s[j] == p[j]);
                    }
                }
                assert forall|a: int, b: int| 0 <= a < b < r.len() implies r[a] != r[b] by {
                    assert(r[a] == rp[a]);
                    if b < rp.len() {
                        assert(r[b] == rp[b]);
                    } else {
                        assert(rp.contains(r[a]));
                    }
                }
            }
        }
    }
}

fn contains_id(ids: &Vec<u128>, id: u128) -> (r: bool)
    ensures
        r == ids@.contains(id),
{
    let mut i: usize = 0;
    while i < ids.len()
        invariant
            i <= ids@.len(),
            forall|j: int| 0 <= j < i ==> ids@[j] != id,
        decreases ids@.len() - i,
    {
        if ids[i] == id {
            proof {
                assert(ids@[i as int] == id);
            }
            return true;
        }
        i = i + 1;
    }
    false
}

/// Where an engine update stands.
#[derive(Clone, Copy, PartialEq, Eq, Debug)]
pub enum EnginePhase {
    /// Between updates.
    Idle,
    /// The plugins set up the stores of new sketches.
    BuildingSketches,
    /// The plugins prepare the update (`before_engine_update`).
    BeforeUpdate,
    /// The sketches run, each with its store.
    UpdatingSketches,
    /// The sketches' drawings are rendered into their textures, then the
    /// plugins render and the displays show the result.
    Rendering,
    /// The plugins finish the update (`after_engine_update`).
    AfterUpdate,
}

/// What the engine asks its driver to do next; `S` is a sketch store.
pub enum EngineAction<S> {
    /// Let every plugin set up the store of each of these new sketches
    /// (`build_sketch`), then report with `sketches_built`.
    BuildSketches(Vec<u128>),
    /// Let every plugin prepare the update, then report with
    /// `before_update_done`.
    RunBeforeEngineUpdate,
    /// Update each of these sketches with its store, then report the
    /// results and hand the stores back with `sketches_updated`.
    UpdateSketches(Vec<(u128, S)>),
    /// Render each sketch's drawing into its render texture, let the
    /// plugins render, submit, and render the displays; then report with
    /// `rendered`.
    Render(Vec<(u128, u128)>),
    /// Let every plugin finish the update, then report with
    /// `after_update_done`.
    RunAfterEngineUpdate,
    /// The update is over.
    Finish,
}

/// The steps of one engine update, in order: build new sketches, prepare,
/// run the sketches, render, finish. The plugins, the sketch workers and the
/// GPU are driven from outside, through `EngineAction`s.
pub struct EngineUpdate {
    phase: EnginePhase,
    building: Vec<u128>,
}

impl EngineUpdate {
    /// The phase the update is in.
    pub closed spec fn phase_spec(&self) -> EnginePhase {
        self.phase
    }

    /// The new sketches being built.
    pub closed spec fn building_spec(&self) -> Seq<u128> {
        self.building@
    }

    /// Between updates.
    pub fn new() -> (r: Self)
        ensures
            r.phase_spec() == EnginePhase::Idle,
    {
        EngineUpdate { phase: EnginePhase::Idle, building: Vec::new() }
    }

    #[verifier::when_used_as_spec(phase_spec)]
    pub fn phase(&self) -> (r: EnginePhase)
        ensures
            r == self.phase_spec(),
    {
        self.phase
    }

    /// Starts an update: new sketches are built first, when there are any.
    pub fn begin<S>(&mut self, sketches: &Vec<SketchStatus>) -> (a: EngineAction<S>)
        requires
            old(self).phase_spec() == EnginePhase::Idle,
        ensures
            ({
                let new_ids = unbuilt_ids(status_views(sketches@));
                if new_ids.len() > 0 {
                    &&& a matches EngineAction::BuildSketches(ids) && ids@ == new_ids
                    &&& final(self).phase_spec() == EnginePhase::BuildingSketches
                    &&& final(self).building_spec() == new_ids
                } else {
                    &&& a is RunBeforeEngineUpdate
                    &&& final(self).phase_spec() == EnginePhase::BeforeUpdate
                }
            }),
    {
        let ids = sketches_to_build(sketches);
        if ids.len() > 0 {
            self.building = copy_ids(&ids);
            self.phase = EnginePhase::BuildingSketches;
            EngineAction::BuildSketches(ids)
        } else {
            self.phase = EnginePhase::BeforeUpdate;
            EngineAction::RunBeforeEngineUpdate
        }
    }

    /// The plugins set up the new sketches' stores: they count as built.
    pub fn sketches_built<S>(&mut self, sketches: &mut Vec<SketchStatus>) -> (a: EngineAction<S>)
        requires
            old(self).phase_spec() == EnginePhase::BuildingSketches,
        ensures
            final(sketches)@.len() == old(sketches)@.len(),
            forall|j: int| 0 <= j < old(sketches)@.len() ==> #[trigger] final(sketches)@[j]@ == built_if_listed(
                old(sketches)@[j]@,
                old(self).building_spec(),
            ),
            a is RunBeforeEngineUpdate,
            final(self).phase_spec() == EnginePhase::BeforeUpdate,
    {
        let ghost start = sketches@;
        let mut k: usize = 0;
        while k < sketches.len()
            invariant
                k <= sketches@.len(),
                sketches@.len() == start.len(),
                forall|j: int| 0 <= j < k ==> #[trigger] sketches@[j]@ == built_if_listed(start[j]@, self.building@),
                forall|j: int| k <= j < start.len() ==> #[trigger] sketches@[j] == start[j],
            decreases sketches@.len() - k,
        {
            if contains_id(&self.building, sketches[k].id()) {
                let mut s = sketches.remove(k);
                s.mark_built();
                sketches.insert(k, s);
            }
            k = k + 1;
        }
        self.phase = EnginePhase::BeforeUpdate;
        EngineAction::RunBeforeEngineUpdate
    }

    /// The plugins prepared the update: the sketches that are enabled and
    /// built run, each with its store, which is taken out meanwhile.
    pub fn before_update_done<S>(&mut self, sketches: &Vec<SketchStatus>, stores: &mut SketchStores<S>) -> (a:
        EngineAction<S>)
        requires
            old(self).phase_spec() == EnginePhase::BeforeUpdate,
            ids_distinct(status_views(sketches@)),
            forall|k: u128| #[trigger] runnable_ids(status_views(sketches@)).contains(k) ==> old(stores)@.contains_key(k),
        ensures
            ({
                let ids = runnable_ids(status_views(sketches@));
                &&& a matches EngineAction::UpdateSketches(t) && t@ == taken(old(stores)@, ids)
                &&& final(stores)@ == old(stores)@.remove_keys(ids.to_set())
            }),
            final(self).phase_spec() == EnginePhase::UpdatingSketches,
    {
        let ids = sketches_to_update(sketches);
        proof {
            lemma_runnable_ids(status_views(sketches@));
            assert forall|i: int| 0 <= i < ids@.len() implies #[trigger] stores@.contains_key(ids@[i]) by {
                assert(ids@.contains(ids@[i]));
            }
        }
        let t = stores.take_for(&ids);
        self.phase = EnginePhase::UpdatingSketches;
        EngineAction::UpdateSketches(t)
    }

    /// The sketches ran: each one's errors are recorded, each store goes
    /// back under the id it is handed back with, and the drawings of the
    /// enabled sketches with a render texture are rendered.
    pub fn sketches_updated<S>(
        &mut self,
        sketches: &mut Vec<SketchStatus>,
        stores: &mut SketchStores<S>,
        results: Vec<UpdateResult>,
        returned: Vec<(u128, S)>,
    ) -> (a: EngineAction<S>)
        requires
            old(self).phase_spec() == EnginePhase::UpdatingSketches,
            results_known(old(sketches)@, results@),
        ensures
            final(sketches)@.len() == old(sketches)@.len(),
            forall|j: int| 0 <= j < old(sketches)@.len() ==> #[trigger] final(sketches)@[j]@ == status_after_results(
                old(sketches)@[j]@,
                results@,
            ),
            final(stores)@ == stored(old(stores)@, returned@),
            a matches EngineAction::Render(pairs) && pairs@ == render_pairs(status_views(final(sketches)@)),
            final(self).phase_spec() == EnginePhase::Rendering,
    {
        record_update_results(sketches, results);
        stores.put_back(returned);
        self.phase = EnginePhase::Rendering;
        EngineAction::Render(sketches_to_render(sketches))
    }

    /// Rendering is done: the plugins finish the update.
    pub fn rendered<S>(&mut self) -> (a: EngineAction<S>)
        requires
            old(self).phase_spec() == EnginePhase::Rendering,
        ensures
            a is RunAfterEngineUpdate,
            final(self).phase_spec() == EnginePhase::AfterUpdate,
    {
        self.phase = EnginePhase::AfterUpdate;
        EngineAction::RunAfterEngineUpdate
    }

    /// The plugins finished: the update is over.
    pub fn after_update_done<S>(&mut self) -> (a: EngineAction<S>)
        requires
            old(self).phase_spec() == EnginePhase::AfterUpdate,
        ensures
            a is Finish,
            final(self).phase_spec() == EnginePhase::Idle,
    {
        self.phase = EnginePhase::Idle;
        EngineAction::Finish
    }
}

fn copy_ids(ids: &Vec<u128>) -> (r: Vec<u128>)
    ensures
        r@ == ids@,
{
    let mut r: Vec<u128> = Vec::new();
    let mut i: usize = 0;
    while i < ids.len()
        invariant
            i <= ids@.len(),
            r@ == ids@.take(i as int),
        decreases ids@.len() - i,
    {
        r.push(ids[i]);
        i = i + 1;
        proof {
            assert(r@ =~= ids@.take(i as int));
        }
    }
    proof {
        assert(ids@.take(ids@.len() as int) =~= ids@);
    }
    r
}

} // verus!
