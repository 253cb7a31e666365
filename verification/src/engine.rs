use vstd::prelude::*;

use crate::name_map::lemma_push_contains;

verus! {

/// What the engine knows of a sketch between updates. Sketch and render
/// texture ids are UUIDs, held as their 128-bit values.
pub struct SketchStatus {
    id: u128,
    is_built: bool,
    is_enabled: bool,
    target_render_texture_id: Option<u128>,
    compilation_error: Option<String>,
    runtime_error: Option<String>,
}

/// A sketch's status as plain values.
pub struct SketchStatusView {
    pub id: u128,
    pub is_built: bool,
    pub is_enabled: bool,
    pub target_render_texture_id: Option<u128>,
    pub compilation_error: Option<Seq<char>>,
    pub runtime_error: Option<Seq<char>>,
}

pub open spec fn opt_string_view(o: Option<String>) -> Option<Seq<char>> {
    match o {
        Some(s) => Some(s@),
        None => None,
    }
}

impl View for SketchStatus {
    type V = SketchStatusView;

    closed spec fn view(&self) -> SketchStatusView {
        SketchStatusView {
            id: self.id,
            is_built: self.is_built,
            is_enabled: self.is_enabled,
            target_render_texture_id: self.target_render_texture_id,
            compilation_error: opt_string_view(self.compilation_error),
            runtime_error: opt_string_view(self.runtime_error),
        }
    }
}

impl SketchStatus {
    /// A sketch that was just added: not built by the plugins yet, enabled,
    /// drawing into no render texture, without errors.
    pub fn new(id: u128) -> (s: Self)
        ensures
            s@ == (SketchStatusView {
                id,
                is_built: false,
                is_enabled: true,
                target_render_texture_id: None,
                compilation_error: None,
                runtime_error: None,
            }),
    {
        SketchStatus {
            id,
            is_built: false,
            is_enabled: true,
            target_render_texture_id: None,
            compilation_error: None,
            runtime_error: None,
        }
    }

    pub fn id(&self) -> (r: u128)
        ensures
            r == self@.id,
    {
        self.id
    }

    pub fn is_built(&self) -> (r: bool)
        ensures
            r == self@.is_built,
    {
        self.is_built
    }

    /// The plugins have set up the sketch's store.
    pub fn mark_built(&mut self)
        ensures
            final(self)@ == (SketchStatusView { is_built: true, ..old(self)@ }),
    {
        self.is_built = true;
    }

    pub fn is_enabled(&self) -> (r: bool)
        ensures
            r == self@.is_enabled,
    {
        self.is_enabled
    }

    pub fn set_enabled(&mut self, enabled: bool)
        ensures
            final(self)@ == (SketchStatusView { is_enabled: enabled, ..old(self)@ }),
    {
        self.is_enabled = enabled;
    }

    pub fn get_target_render_texture_id(&self) -> (r: Option<u128>)
        ensures
            r == self@.target_render_texture_id,
    {
        self.target_render_texture_id
    }

    pub fn set_target_render_texture_id(&mut self, id: Option<u128>)
        ensures
            final(self)@ == (SketchStatusView { target_render_texture_id: id, ..old(self)@ }),
    {
        self.target_render_texture_id = id;
    }

    /// Records the errors that the sketch's last update reported.
    pub fn set_errors(&mut self, compilation_error: Option<String>, runtime_error: Option<String>)
        ensures
            final(self)@ == (SketchStatusView {
                compilation_error: opt_string_view(compilation_error),
                runtime_error: opt_string_view(runtime_error),
                ..old(self)@
            }),
    {
        self.compilation_error = compilation_error;
        self.runtime_error = runtime_error;
    }

    pub fn compilation_error(&self) -> (r: Option<String>)
        ensures
            opt_string_view(r) == self@.compilation_error,
    {
        match &self.compilation_error {
            Some(e) => Some(e.clone()),
            None => None,
        }
    }

    pub fn runtime_error(&self) -> (r: Option<String>)
        ensures
            opt_string_view(r) == self@.runtime_error,
    {
        match &self.runtime_error {
            Some(e) => Some(e.clone()),
            None => None,
        }
    }
}

pub open spec fn status_views(s: Seq<SketchStatus>) -> Seq<SketchStatusView> {
    s.map_values(|x: SketchStatus| x@)
}

/// The ids of the sketches that the plugins have not built yet, in order.
pub open spec fn unbuilt_ids(s: Seq<SketchStatusView>) -> Seq<u128>
    decreases s.len(),
{
    if s.len() == 0 {
        Seq::empty()
    } else {
        let prev = unbuilt_ids(s.drop_last());
        if !s.last().is_built { prev.push(s.last().id) } else { prev }
    }
}

/// The ids of the sketches that run this update: enabled and built.
pub open spec fn runnable_ids(s: Seq<SketchStatusView>) -> Seq<u128>
    decreases s.len(),
{
    if s.len() == 0 {
        Seq::empty()
    } else {
        let prev = runnable_ids(s.drop_last());
        if s.last().is_enabled && s.last().is_built { prev.push(s.last().id) } else { prev }
    }
}

/// The sketches whose drawing is rendered this update, with the render
/// texture each draws into: enabled, with a target.
pub open spec fn render_pairs(s: Seq<SketchStatusView>) -> Seq<(u128, u128)>
    decreases s.len(),
{
    if s.len() == 0 {
        Seq::empty()
    } else {
        let prev = render_pairs(s.drop_last());
        match s.last().target_render_texture_id {
            Some(t) => if s.last().is_enabled { prev.push((s.last().id, t)) } else { prev },
            None => prev,
        }
    }
}

/// A sketch's drawing is rendered into a texture exactly when the sketch is
/// enabled and has that texture as its target; whether it is built and what
/// errors it reported do not matter.
pub proof fn law_rendered_exactly_enabled_with_target(s: Seq<SketchStatusView>, id: u128, t: u128)
    ensures
        render_pairs(s).contains((id, t)) <==> exists|j: int|
            0 <= j < s.len() && (#[trigger] s[j]).id == id && s[j].is_enabled && s[j].target_render_texture_id
                == Some(t),
    decreases s.len(),
{
    if s.len() > 0 {
        let p = s.drop_last();
        law_rendered_exactly_enabled_with_target(p, id, t);
        let last = s.last();
        match last.target_render_texture_id {
            Some(u) => if last.is_enabled {
                lemma_push_contains(render_pairs(p), (last.id, u), (id, t));
            },
            None => {},
        }
        if exists|j: int| 0 <= j < s.len() && (#[trigger] s[j]).id == id && s[j].is_enabled && s[j].target_render_texture_id == Some(t) {
            let j = choose|j: int| 0 <= j < s.len() && (#[trigger] s[j]).id == id && s[j].is_enabled && s[j].target_render_texture_id == Some(t);
            if j < p.len() {
                assert(p[j] == s[j]);
            }
        }
        if exists|j: int| 0 <= j < p.len() && (#[trigger] p[j]).id == id && p[j].is_enabled && p[j].target_render_texture_id == Some(t) {
            let j = choose|j: int| 0 <= j < p.len() && (#[trigger] p[j]).id == id && p[j].is_enabled && p[j].target_render_texture_id == Some(t);
            assert(s[j] == p[j]);
        }
    }
}

/// A sketch runs exactly when it is enabled and built, whatever its errors;
/// it is built first exactly when it is not built yet.
pub proof fn law_runs_exactly_enabled_and_built(s: Seq<SketchStatusView>, id: u128)
    ensures
        runnable_ids(s).contains(id) <==> exists|j: int|
            0 <= j < s.len() && (#[trigger] s[j]).id == id && s[j].is_enabled && s[j].is_built,
        unbuilt_ids(s).contains(id) <==> exists|j: int| 0 <= j < s.len() && (#[trigger] s[j]).id == id && !s[j].is_built,
    decreases s.len(),
{
    if s.len() > 0 {
        let p = s.drop_last();
        law_runs_exactly_enabled_and_built(p, id);
        let last = s.last();
        if last.is_enabled && last.is_built {
            lemma_push_contains(runnable_ids(p), last.id, id);
        }
        if !last.is_built {
            lemma_push_contains(unbuilt_ids(p), last.id, id);
        }
        if exists|j: int| 0 <= j < s.len() && (#[trigger] s[j]).id == id && s[j].is_enabled && s[j].is_built {
            let j = choose|j: int| 0 <= j < s.len() && (#[trigger] s[j]).id == id && s[j].is_enabled && s[j].is_built;
            if j < p.len() {
                assert(p[j] == s[j]);
            }
        }
        if exists|j: int| 0 <= j < p.len() && (#[trigger] p[j]).id == id && p[j].is_enabled && p[j].is_built {
            let j = choose|j: int| 0 <= j < p.len() && (#[trigger] p[j]).id == id && p[j].is_enabled && p[j].is_built;
            assert(s[j] == p[j]);
        }
        if exists|j: int| 0 <= j < s.len() && (#[trigger] s[j]).id == id && !s[j].is_built {
            let j = choose|j: int| 0 <= j < s.len() && (#[trigger] s[j]).id == id && !s[j].is_built;
            if j < p.len() {
                assert(p[j] == s[j]);
            }
        }
        if exists|j: int| 0 <= j < p.len() && (#[trigger] p[j]).id == id && !p[j].is_built {
            let j = choose|j: int| 0 <= j < p.len() && (#[trigger] p[j]).id == id && !p[j].is_built;
            assert(s[j] == p[j]);
        }
    }
}

/// The sketches to build before this update: those not built yet.
pub fn sketches_to_build(sketches: &Vec<SketchStatus>) -> (r: Vec<u128>)
    ensures
        r@ == unbuilt_ids(status_views(sketches@)),
{
    let ghost sv = status_views(sketches@);
    let mut r: Vec<u128> = Vec::new();
    let mut i: usize = 0;
    while i < sketches.len()
        invariant
            sv == status_views(sketches@),
            i <= sketches@.len(),
            r@ == unbuilt_ids(sv.take(i as int)),
        decreases sketches@.len() - i,
    {
        proof {
            assert(sv.take(i + 1).drop_last() =~= sv.take(i as int));
            assert(sv.take(i + 1).last() == sketches@[i as int]@);
        }
        if !sketches[i].is_built() {
            r.push(sketches[i].id());
        }
        i = i + 1;
    }
    assert(sv.take(i as int) =~= sv);
    r
}

/// The sketches to run this update: enabled and built.
pub fn sketches_to_update(sketches: &Vec<SketchStatus>) -> (r: Vec<u128>)
    ensures
        r@ == runnable_ids(status_views(sketches@)),
{
    let ghost sv = status_views(sketches@);
    let mut r: Vec<u128> = Vec::new();
    let mut i: usize = 0;
    while i < sketches.len()
        invariant
            sv == status_views(sketches@),
            i <= sketches@.len(),
            r@ == runnable_ids(sv.take(i as int)),
        decreases sketches@.len() - i,
    {
        proof {
            assert(sv.take(i + 1).drop_last() =~= sv.take(i as int));
            assert(sv.take(i + 1).last() == sketches@[i as int]@);
        }
        if sketches[i].is_enabled() && sketches[i].is_built() {
            r.push(sketches[i].id());
        }
        i = i + 1;
    }
    assert(sv.take(i as int) =~= sv);
    r
}

/// The sketches whose drawing is rendered into a texture this update, with
/// that texture's id.
pub fn sketches_to_render(sketches: &Vec<SketchStatus>) -> (r: Vec<(u128, u128)>)
    ensures
        r@ == render_pairs(status_views(sketches@)),
{
    let ghost sv = status_views(sketches@);
    let mut r: Vec<(u128, u128)> = Vec::new();
    let mut i: usize = 0;
    while i < sketches.len()
        invariant
            sv == status_views(sketches@),
            i <= sketches@.len(),
            r@ == render_pairs(sv.take(i as int)),
        decreases sketches@.len() - i,
    {
        proof {
            assert(sv.take(i + 1).drop_last() =~= sv.take(i as int));
            assert(sv.take(i + 1).last() == sketches@[i as int]@);
        }
        if sketches[i].is_enabled() {
            match sketches[i].get_target_render_texture_id() {
                Some(t) => r.push((sketches[i].id(), t)),
                None => {},
            }
        }
        i = i + 1;
    }
    assert(sv.take(i as int) =~= sv);
    r
}

/// What a sketch's update reported: its id, and its compilation and
/// runtime errors.
pub type UpdateResult = (u128, Option<String>, Option<String>);

/// A sketch's status once the results of an update were recorded: the
/// errors of the last result about it, or as before when there is none.
pub open spec fn status_after_results(s: SketchStatusView, results: Seq<UpdateResult>) -> SketchStatusView
    decreases results.len(),
{
    if results.len() == 0 {
        s
    } else {
        let prev = status_after_results(s, results.drop_last());
        let last = results.last();
        if last.0 == s.id {
            SketchStatusView {
                compilation_error: opt_string_view(last.1),
                runtime_error: opt_string_view(last.2),
                ..prev
            }
        } else {
            prev
        }
    }
}

/// Every result is about one of the sketches.
pub open spec fn results_known(sketches: Seq<SketchStatus>, results: Seq<UpdateResult>) -> bool {
    forall|i: int| 0 <= i < results.len() ==> exists|j: int| 0 <= j < sketches.len() && #[trigger] sketches[j]@.id == #[trigger] results[i].0
}

/// The latest result about a sketch decides both its errors, a clean result
/// clearing them; a result about another sketch changes nothing; nothing
/// but the errors ever changes.
pub proof fn law_latest_result_decides_errors(s: SketchStatusView, results: Seq<UpdateResult>, r: UpdateResult)
    ensures
        r.0 == s.id ==> status_after_results(s, results.push(r)).compilation_error == opt_string_view(r.1),
        r.0 == s.id ==> status_after_results(s, results.push(r)).runtime_error == opt_string_view(r.2),
        r.0 == s.id && r.2 is None ==> status_after_results(s, results.push(r)).runtime_error is None,
        r.0 != s.id ==> status_after_results(s, results.push(r)) == status_after_results(s, results),
        status_after_results(s, results).id == s.id,
        status_after_results(s, results).is_built == s.is_built,
        status_after_results(s, results).is_enabled == s.is_enabled,
        status_after_results(s, results).target_render_texture_id == s.target_render_texture_id,
{
    assert(results.push(r).drop_last() =~= results);
    lemma_status_id(s, results);
}

/// A sketch that no result is about keeps its errors.
pub proof fn law_no_result_keeps_errors(s: SketchStatusView, results: Seq<UpdateResult>)
    requires
        forall|i: int| 0 <= i < results.len() ==> (#[trigger] results[i]).0 != s.id,
    ensures
        status_after_results(s, results) == s,
    decreases results.len(),
{
    if results.len() > 0 {
        let p = results.drop_last();
        assert forall|i: int| 0 <= i < p.len() implies (#[trigger] p[i]).0 != s.id by {
            assert(p[i] == results[i]);
        }
        law_no_result_keeps_errors(s, p);
    }
}

/// Records the errors that each sketch's update reported, result by
/// result; a later result about a sketch replaces an earlier one.
pub fn record_update_results(sketches: &mut Vec<SketchStatus>, results: Vec<UpdateResult>)
    requires
        results_known(old(sketches)@, results@),
    ensures
        final(sketches)@.len() == old(sketches)@.len(),
        forall|j: int| 0 <= j < old(sketches)@.len() ==> #[trigger] final(sketches)@[j]@ == status_after_results(
            old(sketches)@[j]@,
            results@,
        ),
{
    let ghost start = sketches@;
    let mut i: usize = 0;
    while i < results.len()
        invariant
            i <= results@.len(),
            sketches@.len() == start.len(),
            forall|j: int| 0 <= j < start.len() ==> #[trigger] sketches@[j]@ == status_after_results(
                start[j]@,
                results@.take(i as int),
            ),
        decreases results@.len() - i,
    {
        proof {
            assert(results@.take(i + 1).drop_last() =~= results@.take(i as int));
        }
        let (id, compilation_error, runtime_error) = &results[i];
        let mut k: usize = 0;
        while k < sketches.len()
            invariant
                i < results@.len(),
                (*id, *compilation_error, *runtime_error) == results@[i as int],
                k <= sketches@.len(),
                sketches@.len() == start.len(),
                forall|j: int| 0 <= j < k ==> #[trigger] sketches@[j]@ == status_after_results(
                    start[j]@,
                    results@.take(i + 1),
                ),
                forall|j: int| k <= j < start.len() ==> #[trigger] sketches@[j]@ == status_after_results(
                    start[j]@,
                    results@.take(i as int),
                ),
            decreases sketches@.len() - k,
        {
            proof {
                assert(results@.take(i + 1).drop_last() =~= results@.take(i as int));
                assert(results@.take(i + 1).last() == results@[i as int]);
                lemma_status_id(start[k as int]@, results@.take(i as int));
            }
            if sketches[k].id() == *id {
                let mut s = sketches.remove(k);
                s.set_errors(compilation_error.clone(), runtime_error.clone());
                sketches.insert(k, s);
            }
            k = k + 1;
        }
        i = i + 1;
    }
    proof {
        assert(results@.take(results@.len() as int) =~= results@);
    }
}

/// Recording results never changes a sketch's id.
pub proof fn lemma_status_id(s: SketchStatusView, results: Seq<UpdateResult>)
    ensures
        status_after_results(s, results).id == s.id,
        status_after_results(s, results).is_built == s.is_built,
        status_after_results(s, results).is_enabled == s.is_enabled,
        status_after_results(s, results).target_render_texture_id == s.target_render_texture_id,
    decreases results.len(),
{
    if results.len() > 0 {
        lemma_status_id(s, results.drop_last());
    }
}

/// The declarations joined with a newline between each two.
pub open spec fn join_lines(parts: Seq<Seq<char>>) -> Seq<char>
    decreases parts.len(),
{
    if parts.len() == 0 {
        Seq::empty()
    } else if parts.len() == 1 {
        parts[0]
    } else {
        join_lines(parts.drop_last()) + "\n"@ + parts.last()
    }
}

/// The declarations that are present, in order.
pub open spec fn present(decls: Seq<Option<String>>) -> Seq<Seq<char>>
    decreases decls.len(),
{
    if decls.len() == 0 {
        Seq::empty()
    } else {
        let prev = present(decls.drop_last());
        match decls.last() {
            Some(s) => prev.push(s@),
            None => prev,
        }
    }
}

/// The TypeScript declarations of all plugins, for editors: the
/// declarations that plugins provide, one after the other with a newline
/// between each two, or `None` when no plugin provides one.
pub fn typescript_declarations(declarations: &Vec<Option<String>>) -> (r: Option<String>)
    ensures
        present(declarations@).len() == 0 ==> r is None,
        present(declarations@).len() > 0 ==> (r matches Some(s) && s@ == join_lines(present(declarations@))),
{
    let mut out = String::new();
    let mut count: usize = 0;
    let mut i: usize = 0;
    proof {
        reveal_strlit("\n");
    }
    while i < declarations.len()
        invariant
            i <= declarations@.len(),
            count == present(declarations@.take(i as int)).len(),
            count <= i,
            out@ == join_lines(present(declarations@.take(i as int))),
            "\n"@ == seq!['\n'],
        decreases declarations@.len() - i,
    {
        let ghost p = present(declarations@.take(i as int));
        proof {
            assert(declarations@.take(i + 1).drop_last() =~= declarations@.take(i as int));
        }
        match &declarations[i] {
            Some(d) => {
                if count > 0 {
                    out.append("\n");
                }
                out.append(d.as_str());
                count = count + 1;
                proof {
                    let q = p.push(d@);
                    assert(q.drop_last() =~= p);
                    if p.len() == 0 {
                        assert(out@ =~= d@);
                    }
                }
            },
            None => {},
        }
        i = i + 1;
    }
    assert(declarations@.take(i as int) =~= declarations@);
    if count == 0 {
        None
    } else {
        Some(out)
    }
}

} // verus!
