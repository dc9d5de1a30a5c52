//! The frame engine's bookkeeping: the scene and mirror pipeline lists, their
//! draw order, the per-image fences and framebuffers, and the decisions of
//! each frame that do not need the device.
use vstd::prelude::*;
use crate::order::{draw_order, is_draw_order};
use crate::pipeline::{
    MyPipeline, ShaderReload, views, reload_pair, pair_dispatch, pair_in_flight, shaders_wf,
};
use crate::scene::SceneObject;
use crate::shader::{HotShader, ReloadStep, ShaderState};

verus! {

/// The states, queued compiles and in-flight flag after reloading the
/// shaders of `pipes[from..to]` in turn.
pub ghost struct ReloadFold<M> {
    pub states: Seq<ShaderState<M>>,
    pub dispatch: Seq<usize>,
    pub rebuilding: bool,
}

pub open spec fn reload_list<M, P>(
    s: Seq<ShaderState<M>>,
    pipes: Seq<MyPipeline<P>>,
    from: int,
    to: int,
    forced: bool,
) -> ReloadFold<M>
    decreases to - from,
{
    if to <= from {
        ReloadFold { states: s, dispatch: Seq::empty(), rebuilding: false }
    } else {
        let prev = reload_list(s, pipes, from, to - 1, forced);
        let p = pipes[to - 1];
        let vs = p.vs_spec() as int;
        let fs = p.fs_spec() as int;
        if p.enabled() {
            ReloadFold {
                states: reload_pair(prev.states, vs, fs, forced),
                dispatch: prev.dispatch + pair_dispatch(prev.states, vs, fs, forced),
                rebuilding: prev.rebuilding || pair_in_flight(prev.states, vs, fs, forced),
            }
        } else {
            prev
        }
    }
}

/// When pipeline `i` of the list had its shaders reloaded, a compile of one
/// of them was in flight (queued then or earlier, possibly by a pipeline
/// sharing the handle).
pub open spec fn in_flight_at<M, P>(
    s: Seq<ShaderState<M>>,
    pipes: Seq<MyPipeline<P>>,
    from: int,
    i: int,
    forced: bool,
) -> bool {
    let p = pipes[i];
    p.enabled() && pair_in_flight(
        reload_list(s, pipes, from, i, forced).states,
        p.vs_spec() as int,
        p.fs_spec() as int,
        forced,
    )
}

/// Reloading a pair keeps every compiling handle compiling, leaves the
/// registry's size, and queues each handle at most once, only one that was
/// idle, which is compiling afterwards.
proof fn lemma_reload_pair_dispatch<M>(s: Seq<ShaderState<M>>, vs: int, fs: int, forced: bool)
    requires
        0 <= vs < s.len(),
        0 <= fs < s.len(),
        s.len() <= usize::MAX,
    ensures
        reload_pair(s, vs, fs, forced).len() == s.len(),
        forall|k: int| 0 <= k < s.len() && s[k].compiling ==> #[trigger] reload_pair(s, vs, fs, forced)[k].compiling,
        forall|a: int, b: int| 0 <= a < b < pair_dispatch(s, vs, fs, forced).len()
            ==> pair_dispatch(s, vs, fs, forced)[a] != pair_dispatch(s, vs, fs, forced)[b],
        forall|a: int| 0 <= a < pair_dispatch(s, vs, fs, forced).len() ==> {
            let x = #[trigger] pair_dispatch(s, vs, fs, forced)[a] as int;
            &&& 0 <= x < s.len()
            &&& !s[x].compiling
            &&& reload_pair(s, vs, fs, forced)[x].compiling
        },
{
    let s1 = s.update(vs, s[vs].after_reload(forced));
    let s2 = reload_pair(s, vs, fs, forced);
    let d = pair_dispatch(s, vs, fs, forced);
    let dv = s[vs].reload_step(forced) == ReloadStep::Dispatch;
    let df = s1[fs].reload_step(forced) == ReloadStep::Dispatch;
    assert(s2 == s1.update(fs, s1[fs].after_reload(forced)));
    assert(s1[vs].compiling == (s[vs].reload_step(forced) != ReloadStep::UpToDate));
    if dv {
        assert(s2[vs].compiling);
    }
    if df {
        assert(s2[fs].compiling);
        assert(!s1[fs].compiling);
        if vs != fs {
            assert(s1[fs] == s[fs]);
        }
    }
    if dv && df {
        assert(d =~= seq![vs as usize, fs as usize]);
        assert(vs != fs);
    } else if dv {
        assert(d =~= seq![vs as usize]);
    } else if df {
        assert(d =~= seq![fs as usize]);
    } else {
        assert(d =~= Seq::<usize>::empty());
    }
    assert forall|k: int| 0 <= k < s.len() && s[k].compiling implies #[trigger] s2[k].compiling by {
        if k == vs {
            assert(s1[k].compiling);
        }
        if k != vs {
            assert(s1[k] == s[k]);
        }
    }
}

/// A pass of reloads over a pipeline list queues each shader handle at most
/// once, and only a handle that was idle: no handle ever has two compiles in
/// flight. Every queued handle is compiling after the pass.
pub proof fn lemma_reload_list_one_compile_per_handle<M, P>(
    s: Seq<ShaderState<M>>,
    pipes: Seq<MyPipeline<P>>,
    from: int,
    to: int,
    forced: bool,
)
    requires
        pipes_wf(pipes, s.len()),
        s.len() <= usize::MAX,
        0 <= from,
        to <= pipes.len(),
    ensures
        ({
            let f = reload_list(s, pipes, from, to, forced);
            &&& f.states.len() == s.len()
            &&& forall|k: int| 0 <= k < s.len() && s[k].compiling ==> #[trigger] f.states[k].compiling
            &&& forall|a: int, b: int| 0 <= a < b < f.dispatch.len() ==> f.dispatch[a] != f.dispatch[b]
            &&& forall|a: int| 0 <= a < f.dispatch.len() ==> {
                let x = #[trigger] f.dispatch[a] as int;
                &&& 0 <= x < s.len()
                &&& !s[x].compiling
                &&& f.states[x].compiling
            }
        }),
    decreases to - from,
{
    if to > from {
        lemma_reload_list_one_compile_per_handle(s, pipes, from, to - 1, forced);
        let prev = reload_list(s, pipes, from, to - 1, forced);
        let p = pipes[to - 1];
        assert(p.wf(s.len()));
        if p.enabled() {
            let vs = p.vs_spec() as int;
            let fs = p.fs_spec() as int;
            lemma_reload_pair_dispatch(prev.states, vs, fs, forced);
            let f = reload_list(s, pipes, from, to, forced);
            let d2 = pair_dispatch(prev.states, vs, fs, forced);
            assert(f.dispatch == prev.dispatch + d2);
            assert forall|a: int, b: int| 0 <= a < b < f.dispatch.len() implies f.dispatch[a] != f.dispatch[b] by {
                if b >= prev.dispatch.len() && a < prev.dispatch.len() {
                    let x = prev.dispatch[a] as int;
                    assert(prev.states[x].compiling);
                    assert(d2[b - prev.dispatch.len()] == f.dispatch[b]);
                    let y = d2[b - prev.dispatch.len()] as int;
                    assert(!prev.states[y].compiling);
                } else if a >= prev.dispatch.len() {
                    assert(f.dispatch[a] == d2[a - prev.dispatch.len()]);
                    assert(f.dispatch[b] == d2[b - prev.dispatch.len()]);
                } else {
                    assert(f.dispatch[a] == prev.dispatch[a]);
                    assert(f.dispatch[b] == prev.dispatch[b]);
                }
            }
            assert forall|a: int| 0 <= a < f.dispatch.len() implies {
                let x = #[trigger] f.dispatch[a] as int;
                &&& 0 <= x < s.len()
                &&& !s[x].compiling
                &&& f.states[x].compiling
            } by {
                if a < prev.dispatch.len() {
                    assert(f.dispatch[a] == prev.dispatch[a]);
                    let x = prev.dispatch[a] as int;
                    assert(prev.states[x].compiling);
                } else {
                    assert(f.dispatch[a] == d2[a - prev.dispatch.len()]);
                    let x = d2[a - prev.dispatch.len()] as int;
                    assert(!prev.states[x].compiling);
                    if s[x].compiling {
                        assert(prev.states[x].compiling);
                    }
                }
            }
        }
    }
}

/// Every pipeline of the list refers to handles of a registry of `n`.
pub open spec fn pipes_wf<P>(pipes: Seq<MyPipeline<P>>, n: nat) -> bool {
    forall|i: int| 0 <= i < pipes.len() ==> (#[trigger] pipes[i]).wf(n)
}

/// Reloads the shaders of `pipes[from..]` in order, as `reload_shaders` does
/// for each.
pub fn reload_list_exec<P, M>(
    pipes: &mut Vec<MyPipeline<P>>,
    shaders: &mut Vec<HotShader<M>>,
    from: usize,
    forced: bool,
) -> (r: ShaderReload)
    requires
        pipes_wf(old(pipes)@, old(shaders).len() as nat),
        shaders_wf(old(shaders)@),
    ensures
        final(shaders).len() == old(shaders).len(),
        shaders_wf(final(shaders)@),
        final(pipes).len() == old(pipes).len(),
        pipes_wf(final(pipes)@, final(shaders).len() as nat),
        ({
            let f = reload_list(views(old(shaders)@), old(pipes)@, from as int, old(pipes).len() as int, forced);
            &&& views(final(shaders)@) == f.states
            &&& r.dispatch@ == f.dispatch
            &&& r.rebuilding == f.rebuilding
        }),
        forall|i: int| 0 <= i < old(pipes).len() ==> {
            &&& (#[trigger] final(pipes)@[i]).same_config(&old(pipes)@[i])
            &&& final(pipes)@[i].built() == (if i >= from
                && in_flight_at(views(old(shaders)@), old(pipes)@, from as int, i, forced) {
                None
            } else {
                old(pipes)@[i].built()
            })
        },
        forall|i: int| 0 <= i < old(shaders).len() ==> {
            &&& (#[trigger] final(shaders)@[i]).path_spec() == old(shaders)@[i].path_spec()
            &&& final(shaders)@[i].stage_spec() == old(shaders)@[i].stage_spec()
        },
{
    let ghost s0 = views(shaders@);
    let ghost p0 = pipes@;
    let ghost sh0 = shaders@;
    let n = pipes.len();
    let mut dispatch: Vec<usize> = Vec::new();
    let mut rebuilding = false;
    let mut i: usize = from;
    if i > n {
        i = n;
    }
    assert(reload_list(s0, p0, from as int, i as int, forced) == ReloadFold::<M> {
        states: s0, dispatch: Seq::empty(), rebuilding: false });
    while i < n
        invariant
            n == pipes.len(),
            p0.len() == n,
            i <= n,
            from <= n ==> from <= i,
            from > n ==> i == n,
            shaders.len() == sh0.len(),
            shaders_wf(shaders@),
            pipes_wf(pipes@, shaders.len() as nat),
            ({
                let f = reload_list(s0, p0, from as int, i as int, forced);
                &&& views(shaders@) == f.states
                &&& dispatch@ == f.dispatch
                &&& rebuilding == f.rebuilding
            }),
            forall|j: int| i <= j < n ==> pipes@[j] == p0[j],
            forall|j: int| 0 <= j < i ==> {
                &&& (#[trigger] pipes@[j]).same_config(&p0[j])
                &&& pipes@[j].built() == (if j >= from && in_flight_at(s0, p0, from as int, j, forced) {
                    None
                } else {
                    p0[j].built()
                })
            },
            forall|k: int| 0 <= k < sh0.len() ==> {
                &&& (#[trigger] shaders@[k]).path_spec() == sh0[k].path_spec()
                &&& shaders@[k].stage_spec() == sh0[k].stage_spec()
            },
        decreases n - i,
    {
        let ghost before = shaders@;
        let out = pipes[i].reload_shaders(shaders, forced);
        proof {
            assert(pipes@[i as int].wf(shaders.len() as nat));
        }
        let mut d = out.dispatch;
        dispatch.append(&mut d);
        rebuilding = rebuilding || out.rebuilding;
        i = i + 1;
    }
    ShaderReload { rebuilding, dispatch }
}


/// Which pass a pipeline list draws in.
#[derive(PartialEq, Eq, Structural, Clone, Copy, Debug)]
pub enum PassKind {
    /// The mirror reflection pass.
    Mirror,
    /// The multisampled scene pass.
    Scene,
}

/// A frame-level failure that the caller must handle.
#[derive(PartialEq, Eq, Structural, Clone, Copy, Debug)]
pub enum FrameError {
    /// A swapchain of zero width or height was asked for.
    ZeroExtent,
    /// A swapchain without images was asked for.
    NoImages,
    /// The next image could not be acquired, for a reason other than the
    /// swapchain being out of date.
    AcquireFailed,
    /// The swapchain handed out an image index it does not have.
    ImageOutOfRange,
}

/// What acquiring the next swapchain image gave.
#[derive(PartialEq, Eq, Structural, Clone, Copy, Debug)]
pub enum AcquireOutcome {
    Acquired { image: usize, suboptimal: bool },
    OutOfDate,
    Failed,
}

/// How the frame goes on after acquiring.
#[derive(PartialEq, Eq, Structural, Clone, Copy, Debug)]
pub enum FrameStep {
    /// Draw into `image`, first waiting for its fence if `wait_fence`.
    Render { image: usize, wait_fence: bool, suboptimal: bool },
    /// Drop this frame: the swapchain must be recreated first.
    Recreate,
}

/// What submitting and presenting the frame gave.
pub enum PresentOutcome<F> {
    /// The work was flushed; `F` signals when it completes.
    Flushed(F),
    OutOfDate,
    Failed,
}

/// The per-pipeline keys of the draw order: `None` for a pipeline without an
/// owning object, else that object's distance key.
pub open spec fn pipeline_keys<P>(pipes: Seq<MyPipeline<P>>, dist_keys: Seq<i32>) -> Seq<Option<i32>> {
    Seq::new(pipes.len(), |i: int| match pipes[i].art_idx_spec() {
        Some(a) => Some(dist_keys[a as int]),
        None => None,
    })
}

/// Every owning-object index of the list is below `n`.
pub open spec fn art_indices_below<P>(pipes: Seq<MyPipeline<P>>, n: nat) -> bool {
    forall|i: int| 0 <= i < pipes.len() ==> match (#[trigger] pipes[i]).art_idx_spec() {
        Some(a) => a < n,
        None => true,
    }
}

/// The draw order of `pipelines`, sorted by descending distance of their
/// owning objects, pipelines without one first, ties in list order.
pub fn get_pipeline_order<P>(pipelines: &Vec<MyPipeline<P>>, dist_keys: &Vec<i32>) -> (r: Vec<usize>)
    requires
        art_indices_below(pipelines@, dist_keys.len() as nat),
    ensures
        is_draw_order(pipeline_keys(pipelines@, dist_keys@), r@),
{
    let mut keys: Vec<Option<i32>> = Vec::new();
    let mut i: usize = 0;
    while i < pipelines.len()
        invariant
            i <= pipelines.len(),
            art_indices_below(pipelines@, dist_keys.len() as nat),
            keys@ == pipeline_keys(pipelines@, dist_keys@).subrange(0, i as int),
        decreases pipelines.len() - i,
    {
        let k = match pipelines[i].get_art_idx() {
            Some(a) => Some(dist_keys[a]),
            None => None,
        };
        keys.push(k);
        i = i + 1;
        assert(keys@ =~= pipeline_keys(pipelines@, dist_keys@).subrange(0, i as int));
    }
    assert(keys@ =~= pipeline_keys(pipelines@, dist_keys@));
    draw_order(&keys)
}

/// Pipeline `i` of the list is recorded: it is enabled and built.
pub open spec fn drawable<P>(pipes: Seq<MyPipeline<P>>, i: usize) -> bool {
    pipes[i as int].enabled() && pipes[i as int].built() is Some
}

/// The entries of `order` whose pipeline is recorded, in order.
pub open spec fn drawable_in_order<P>(order: Seq<usize>, pipes: Seq<MyPipeline<P>>) -> Seq<usize> {
    order.filter(|i: usize| drawable(pipes, i))
}

/// The owning object's enable flag differs from the pipeline's.
pub open spec fn flips<P>(p: MyPipeline<P>, objs: Seq<SceneObject>) -> bool {
    match p.art_idx_spec() {
        Some(a) => objs[a as int].enable_pipeline != p.enabled(),
        None => false,
    }
}

/// Drops the device object of every pipeline of the list.
fn invalidate_all<P>(pipes: &mut Vec<MyPipeline<P>>)
    ensures
        final(pipes).len() == old(pipes).len(),
        forall|i: int| 0 <= i < old(pipes).len() ==> {
            &&& (#[trigger] final(pipes)@[i]).built() is None
            &&& final(pipes)@[i].same_config(&old(pipes)@[i])
        },
{
    let ghost p0 = pipes@;
    let mut i: usize = 0;
    while i < pipes.len()
        invariant
            pipes.len() == p0.len(),
            i <= pipes.len(),
            forall|j: int| i <= j < pipes.len() ==> pipes@[j] == p0[j],
            forall|j: int| 0 <= j < i ==> {
                &&& (#[trigger] pipes@[j]).built() is None
                &&& pipes@[j].same_config(&p0[j])
            },
        decreases pipes.len() - i,
    {
        pipes[i].invalidate();
        i = i + 1;
    }
}

fn same_order(a: &Vec<usize>, b: &Vec<usize>) -> (r: bool)
    ensures
        r == (a@ == b@),
{
    if a.len() != b.len() {
        return false;
    }
    let mut i: usize = 0;
    while i < a.len()
        invariant
            a.len() == b.len(),
            i <= a.len(),
            forall|j: int| 0 <= j < i ==> a@[j] == b@[j],
        decreases a.len() - i,
    {
        if a[i] != b[i] {
            return false;
        }
        i = i + 1;
    }
    assert(a@ =~= b@);
    true
}

/// The frame engine. `P` is a built device pipeline, `F` a fence that
/// signals when the work submitted for one swapchain image completes.
pub struct FrameEngine<P, F> {
    scene: Vec<MyPipeline<P>>,
    mirror: Vec<MyPipeline<P>>,
    order: Vec<usize>,
    fences: Vec<Option<F>>,
    previous_fence_i: usize,
    extent: (u32, u32),
    framebuffer_count: usize,
    graph_dirty: bool,
}

impl<P, F> FrameEngine<P, F> {
    pub closed spec fn scene_spec(&self) -> Seq<MyPipeline<P>> {
        self.scene@
    }

    pub closed spec fn mirror_spec(&self) -> Seq<MyPipeline<P>> {
        self.mirror@
    }

    pub open spec fn pipes_spec(&self, pass: PassKind) -> Seq<MyPipeline<P>> {
        match pass {
            PassKind::Mirror => self.mirror_spec(),
            PassKind::Scene => self.scene_spec(),
        }
    }

    /// The current draw order, shared by both passes.
    pub closed spec fn order_spec(&self) -> Seq<usize> {
        self.order@
    }

    /// The fence of each swapchain image's last submitted frame.
    pub closed spec fn fences_spec(&self) -> Seq<Option<F>> {
        self.fences@
    }

    /// The image that the last frame was submitted for.
    pub closed spec fn previous_spec(&self) -> usize {
        self.previous_fence_i
    }

    pub closed spec fn extent_spec(&self) -> (u32, u32) {
        self.extent
    }

    /// Framebuffers made for the current swapchain, one per image.
    pub closed spec fn framebuffers_spec(&self) -> usize {
        self.framebuffer_count
    }

    /// The recorded command buffers no longer match the pipelines.
    pub closed spec fn graph_dirty_spec(&self) -> bool {
        self.graph_dirty
    }

    /// The invariant: paired lists with the main pipeline first, an order
    /// over the scene list, and one fence slot and framebuffer per image.
    pub open spec fn wf(&self) -> bool {
        &&& self.scene_spec().len() == self.mirror_spec().len()
        &&& self.scene_spec().len() >= 1
        &&& self.order_spec().len() == self.scene_spec().len()
        &&& forall|i: int| 0 <= i < self.order_spec().len()
            ==> #[trigger] self.order_spec()[i] < self.scene_spec().len()
        &&& self.fences_spec().len() >= 1
        &&& self.previous_spec() < self.fences_spec().len()
        &&& self.framebuffers_spec() == self.fences_spec().len()
    }

    /// An engine over paired scene and mirror lists (the main pipeline first
    /// in each), for a swapchain of `image_count` images of `extent`.
    pub fn new(
        scene: Vec<MyPipeline<P>>,
        mirror: Vec<MyPipeline<P>>,
        image_count: usize,
        extent: (u32, u32),
        dist_keys: &Vec<i32>,
    ) -> (r: Self)
        requires
            scene.len() == mirror.len(),
            scene.len() >= 1,
            image_count >= 1,
            art_indices_below(scene@, dist_keys.len() as nat),
        ensures
            r.wf(),
            r.scene_spec() == scene@,
            r.mirror_spec() == mirror@,
            is_draw_order(pipeline_keys(scene@, dist_keys@), r.order_spec()),
            r.fences_spec().len() == image_count,
            forall|i: int| 0 <= i < image_count ==> r.fences_spec()[i] is None,
            r.previous_spec() == 0,
            r.extent_spec() == extent,
            r.framebuffers_spec() == image_count,
            r.graph_dirty_spec(),
    {
        let order = get_pipeline_order(&scene, dist_keys);
        let mut fences: Vec<Option<F>> = Vec::new();
        let mut i: usize = 0;
        while i < image_count
            invariant
                i <= image_count,
                fences.len() == i,
                forall|j: int| 0 <= j < i ==> fences@[j] is None,
            decreases image_count - i,
        {
            fences.push(None);
            i = i + 1;
        }
        FrameEngine {
            scene,
            mirror,
            order,
            fences,
            previous_fence_i: 0,
            extent,
            framebuffer_count: image_count,
            graph_dirty: true,
        }
    }

    pub fn pipelines(&self, pass: PassKind) -> (r: &Vec<MyPipeline<P>>)
        ensures
            r@ == self.pipes_spec(pass),
    {
        match pass {
            PassKind::Mirror => &self.mirror,
            PassKind::Scene => &self.scene,
        }
    }

    pub fn order(&self) -> (r: &Vec<usize>)
        ensures
            r@ == self.order_spec(),
    {
        &self.order
    }

    pub fn extent(&self) -> (r: (u32, u32))
        ensures
            r == self.extent_spec(),
    {
        self.extent
    }

    pub fn image_count(&self) -> (r: usize)
        ensures
            r == self.fences_spec().len(),
    {
        self.fences.len()
    }

    pub fn framebuffer_count(&self) -> (r: usize)
        ensures
            r == self.framebuffers_spec(),
    {
        self.framebuffer_count
    }

    pub fn graph_dirty(&self) -> (r: bool)
        ensures
            r == self.graph_dirty_spec(),
    {
        self.graph_dirty
    }

    /// Reloads the shaders of every pipeline but the main one of each list
    /// (scene list first); a pipeline with a compile of its shaders in
    /// flight loses its device object, and any such compile marks the command
    /// buffers stale. The caller queues the compiles of the returned handles.
    pub fn maintain<M>(&mut self, shaders: &mut Vec<HotShader<M>>, forced: bool) -> (r: ShaderReload)
        requires
            old(self).wf(),
            pipes_wf(old(self).scene_spec(), old(shaders).len() as nat),
            pipes_wf(old(self).mirror_spec(), old(shaders).len() as nat),
            shaders_wf(old(shaders)@),
        ensures
            final(self).wf(),
            final(shaders).len() == old(shaders).len(),
            shaders_wf(final(shaders)@),
            pipes_wf(final(self).scene_spec(), final(shaders).len() as nat),
            pipes_wf(final(self).mirror_spec(), final(shaders).len() as nat),
            ({
                let s0 = views(old(shaders)@);
                let n = old(self).scene_spec().len() as int;
                let f1 = reload_list(s0, old(self).scene_spec(), 1, n, forced);
                let f2 = reload_list(f1.states, old(self).mirror_spec(), 1, n, forced);
                &&& views(final(shaders)@) == f2.states
                &&& r.dispatch@ == f1.dispatch + f2.dispatch
                &&& r.rebuilding == (f1.rebuilding || f2.rebuilding)
                &&& forall|i: int| 0 <= i < n ==> {
                    &&& (#[trigger] final(self).scene_spec()[i]).same_config(&old(self).scene_spec()[i])
                    &&& final(self).scene_spec()[i].built() == (if i >= 1
                        && in_flight_at(s0, old(self).scene_spec(), 1, i, forced) {
                        None
                    } else {
                        old(self).scene_spec()[i].built()
                    })
                }
                &&& forall|i: int| 0 <= i < n ==> {
                    &&& (#[trigger] final(self).mirror_spec()[i]).same_config(&old(self).mirror_spec()[i])
                    &&& final(self).mirror_spec()[i].built() == (if i >= 1
                        && in_flight_at(f1.states, old(self).mirror_spec(), 1, i, forced) {
                        None
                    } else {
                        old(self).mirror_spec()[i].built()
                    })
                }
            }),
            final(self).order_spec() == old(self).order_spec(),
            final(self).fences_spec() == old(self).fences_spec(),
            final(self).previous_spec() == old(self).previous_spec(),
            final(self).extent_spec() == old(self).extent_spec(),
            final(self).framebuffers_spec() == old(self).framebuffers_spec(),
            final(self).graph_dirty_spec() == (old(self).graph_dirty_spec() || r.rebuilding),
            forall|i: int| 0 <= i < old(shaders).len() ==> {
                &&& (#[trigger] final(shaders)@[i]).path_spec() == old(shaders)@[i].path_spec()
                &&& final(shaders)@[i].stage_spec() == old(shaders)@[i].stage_spec()
            },
    {
        let a = reload_list_exec(&mut self.scene, shaders, 1, forced);
        let b = reload_list_exec(&mut self.mirror, shaders, 1, forced);
        let mut dispatch = a.dispatch;
        let mut more = b.dispatch;
        dispatch.append(&mut more);
        let rebuilding = a.rebuilding || b.rebuilding;
        if rebuilding {
            self.graph_dirty = true;
        }
        ShaderReload { rebuilding, dispatch }
    }

    /// The pipelines of a list whose device object is missing and can be
    /// built now, in list order.
    pub fn pending_builds<M>(&self, pass: PassKind, shaders: &Vec<HotShader<M>>) -> (r: Vec<usize>)
        requires
            pipes_wf(self.pipes_spec(pass), shaders.len() as nat),
        ensures
            forall|a: int, b: int| 0 <= a < b < r.len() ==> r@[a] < r@[b],
            forall|k: int| 0 <= k < r.len() ==> {
                &&& #[trigger] r@[k] < self.pipes_spec(pass).len()
                &&& self.pipes_spec(pass)[r@[k] as int].built() is None
                &&& self.pipes_spec(pass)[r@[k] as int].can_build_spec(shaders@)
            },
            forall|i: int| 0 <= i < self.pipes_spec(pass).len()
                && (#[trigger] self.pipes_spec(pass)[i]).built() is None
                && self.pipes_spec(pass)[i].can_build_spec(shaders@) ==> r@.contains(i as usize),
    {
        let pipes = self.pipelines(pass);
        let mut out: Vec<usize> = Vec::new();
        let mut i: usize = 0;
        while i < pipes.len()
            invariant
                pipes@ == self.pipes_spec(pass),
                pipes_wf(pipes@, shaders.len() as nat),
                i <= pipes.len(),
                forall|a: int, b: int| 0 <= a < b < out.len() ==> out@[a] < out@[b],
                forall|k: int| 0 <= k < out.len() ==> {
                    &&& #[trigger] out@[k] < i
                    &&& pipes@[out@[k] as int].built() is None
                    &&& pipes@[out@[k] as int].can_build_spec(shaders@)
                },
                forall|j: int| 0 <= j < i && (#[trigger] pipes@[j]).built() is None
                    && pipes@[j].can_build_spec(shaders@) ==> out@.contains(j as usize),
            decreases pipes.len() - i,
        {
            assert(pipes@[i as int].wf(shaders.len() as nat));
            let ghost old_out = out@;
            if !pipes[i].is_built() && pipes[i].can_build(shaders) {
                out.push(i);
                assert(out@[out.len() - 1] == i);
            }
            proof {
                assert forall|j: int| 0 <= j < i + 1 && (#[trigger] pipes@[j]).built() is None
                    && pipes@[j].can_build_spec(shaders@) implies out@.contains(j as usize) by {
                    if j < i {
                        let w = choose|w: int| 0 <= w < old_out.len() && old_out[w] == j as usize;
                        assert(out@[w] == j as usize);
                    }
                }
            }
            i = i + 1;
        }
        out
    }

    /// Puts a built device object in place for pipeline `i` of a list; the
    /// command buffers must be recorded again.
    pub fn install(&mut self, pass: PassKind, i: usize, built: P)
        requires
            old(self).wf(),
            i < old(self).pipes_spec(pass).len(),
        ensures
            final(self).wf(),
            final(self).pipes_spec(pass) == old(self).pipes_spec(pass).update(
                i as int,
                final(self).pipes_spec(pass)[i as int],
            ),
            final(self).pipes_spec(pass)[i as int].built() == Some(built),
            final(self).pipes_spec(pass)[i as int].same_config(&old(self).pipes_spec(pass)[i as int]),
            pass == PassKind::Scene ==> final(self).mirror_spec() == old(self).mirror_spec(),
            pass == PassKind::Mirror ==> final(self).scene_spec() == old(self).scene_spec(),
            final(self).order_spec() == old(self).order_spec(),
            final(self).fences_spec() == old(self).fences_spec(),
            final(self).previous_spec() == old(self).previous_spec(),
            final(self).extent_spec() == old(self).extent_spec(),
            final(self).framebuffers_spec() == old(self).framebuffers_spec(),
            final(self).graph_dirty_spec(),
    {
        match pass {
            PassKind::Mirror => {
                self.mirror[i].install(built);
                assert(self.mirror@ =~= old(self).mirror@.update(i as int, self.mirror@[i as int]));
            },
            PassKind::Scene => {
                self.scene[i].install(built);
                assert(self.scene@ =~= old(self).scene@.update(i as int, self.scene@[i as int]));
            },
        }
        self.graph_dirty = true;
    }

    /// Computes the draw order from the objects' distance keys; a changed
    /// order marks the command buffers stale. Returns whether it changed.
    pub fn refresh_order(&mut self, dist_keys: &Vec<i32>) -> (r: bool)
        requires
            old(self).wf(),
            art_indices_below(old(self).scene_spec(), dist_keys.len() as nat),
        ensures
            final(self).wf(),
            is_draw_order(pipeline_keys(old(self).scene_spec(), dist_keys@), final(self).order_spec()),
            r == (final(self).order_spec() != old(self).order_spec()),
            final(self).graph_dirty_spec() == (old(self).graph_dirty_spec() || r),
            final(self).scene_spec() == old(self).scene_spec(),
            final(self).mirror_spec() == old(self).mirror_spec(),
            final(self).fences_spec() == old(self).fences_spec(),
            final(self).previous_spec() == old(self).previous_spec(),
            final(self).extent_spec() == old(self).extent_spec(),
            final(self).framebuffers_spec() == old(self).framebuffers_spec(),
    {
        let new_order = get_pipeline_order(&self.scene, dist_keys);
        let changed = !same_order(&new_order, &self.order);
        self.order = new_order;
        if changed {
            self.graph_dirty = true;
        }
        changed
    }

    /// Copies the owning objects' enable flags to the scene pipelines; a
    /// pipeline whose flag flips takes the object's current shaders too.
    /// A flip marks the command buffers stale. Returns whether any flipped.
    pub fn sync_enablement(&mut self, objs: &Vec<SceneObject>) -> (r: bool)
        requires
            old(self).wf(),
            art_indices_below(old(self).scene_spec(), objs.len() as nat),
        ensures
            final(self).wf(),
            final(self).scene_spec().len() == old(self).scene_spec().len(),
            forall|i: int| 0 <= i < old(self).scene_spec().len() ==> {
                let p = old(self).scene_spec()[i];
                let q = #[trigger] final(self).scene_spec()[i];
                match p.art_idx_spec() {
                    Some(a) if objs@[a as int].enable_pipeline != p.enabled() => {
                        let o = objs@[a as int];
                        &&& q.enabled() == o.enable_pipeline
                        &&& q.vs_spec() == o.shader_vert
                        &&& q.fs_spec() == o.shader_frag
                        &&& q.built() == (if o.shader_vert == p.vs_spec() && o.shader_frag == p.fs_spec() {
                            p.built()
                        } else {
                            None
                        })
                        &&& q.name_spec() == p.name_spec()
                        &&& q.art_idx_spec() == p.art_idx_spec()
                        &&& q.has_texture_spec() == p.has_texture_spec()
                        &&& q.has_mirror_spec() == p.has_mirror_spec()
                        &&& q.depth_test_spec() == p.depth_test_spec()
                        &&& q.cull_mode_spec() == p.cull_mode_spec()
                    },
                    _ => q == p,
                }
            },
            r == exists|i: int| 0 <= i < old(self).scene_spec().len()
                && flips(#[trigger] old(self).scene_spec()[i], objs@),
            final(self).graph_dirty_spec() == (old(self).graph_dirty_spec() || r),
            final(self).mirror_spec() == old(self).mirror_spec(),
            final(self).order_spec() == old(self).order_spec(),
            final(self).fences_spec() == old(self).fences_spec(),
            final(self).previous_spec() == old(self).previous_spec(),
            final(self).extent_spec() == old(self).extent_spec(),
            final(self).framebuffers_spec() == old(self).framebuffers_spec(),
    {
        let ghost s0 = self.scene@;
        let n = self.scene.len();
        let mut changed = false;
        let mut i: usize = 0;
        while i < n
            invariant
                n == self.scene.len(),
                s0.len() == n,
                i <= n,
                art_indices_below(s0, objs.len() as nat),
                forall|j: int| i <= j < n ==> self.scene@[j] == s0[j],
                forall|j: int| 0 <= j < i ==> {
                    let p = s0[j];
                    let q = #[trigger] self.scene@[j];
                    match p.art_idx_spec() {
                        Some(a) if objs@[a as int].enable_pipeline != p.enabled() => {
                            let o = objs@[a as int];
                            &&& q.enabled() == o.enable_pipeline
                            &&& q.vs_spec() == o.shader_vert
                            &&& q.fs_spec() == o.shader_frag
                            &&& q.built() == (if o.shader_vert == p.vs_spec() && o.shader_frag == p.fs_spec() {
                                p.built()
                            } else {
                                None
                            })
                            &&& q.name_spec() == p.name_spec()
                            &&& q.art_idx_spec() == p.art_idx_spec()
                            &&& q.has_texture_spec() == p.has_texture_spec()
                            &&& q.has_mirror_spec() == p.has_mirror_spec()
                            &&& q.depth_test_spec() == p.depth_test_spec()
                            &&& q.cull_mode_spec() == p.cull_mode_spec()
                        },
                        _ => q == p,
                    }
                },
                changed == exists|j: int| 0 <= j < i && flips(#[trigger] s0[j], objs@),
                self.mirror@ == old(self).mirror@,
                self.order@ == old(self).order@,
                self.fences@ == old(self).fences@,
                self.previous_fence_i == old(self).previous_fence_i,
                self.extent == old(self).extent,
                self.framebuffer_count == old(self).framebuffer_count,
                self.graph_dirty == old(self).graph_dirty,
            decreases n - i,
        {
            assert(s0[i as int] == self.scene@[i as int]);
            if let Some(a) = self.scene[i].get_art_idx() {
                let o = objs[a];
                if o.enable_pipeline != self.scene[i].is_enabled() {
                    self.scene[i].set_enabled(o.enable_pipeline);
                    self.scene[i].set_shaders(o.shader_vert, o.shader_frag);
                    changed = true;
                }
            }
            proof {
                assert forall|j: int| i + 1 <= j < n implies self.scene@[j] == s0[j] by {}
                if !changed {
                    assert forall|j: int| 0 <= j < i + 1 implies !flips(#[trigger] s0[j], objs@) by {}
                }
            }
            i = i + 1;
        }
        if changed {
            self.graph_dirty = true;
        }
        changed
    }

    /// The pipelines of a list that the pass records, in draw order:
    /// enabled ones with a built device object. The others are skipped.
    pub fn draw_list(&self, pass: PassKind) -> (r: Vec<usize>)
        requires
            self.wf(),
        ensures
            r@ == drawable_in_order(self.order_spec(), self.pipes_spec(pass)),
    {
        let pipes = self.pipelines(pass);
        let mut out: Vec<usize> = Vec::new();
        let mut k: usize = 0;
        while k < self.order.len()
            invariant
                self.wf(),
                pipes@ == self.pipes_spec(pass),
                k <= self.order.len(),
                out@ == drawable_in_order(self.order@.subrange(0, k as int), pipes@),
            decreases self.order.len() - k,
        {
            let i = self.order[k];
            assert(self.order_spec()[k as int] < self.scene_spec().len());
            let keep = pipes[i].is_enabled() && pipes[i].is_built();
            proof {
                assert(self.order@.subrange(0, k + 1).drop_last() =~= self.order@.subrange(0, k as int));
                assert(self.order@.subrange(0, k + 1).last() == i);
                assert(keep == drawable(pipes@, i));
                reveal(Seq::filter);
            }
            if keep {
                out.push(i);
            }
            k = k + 1;
        }
        assert(self.order@.subrange(0, self.order.len() as int) =~= self.order@);
        out
    }

    /// The command buffers were recorded again from the current pipelines.
    pub fn mark_recorded(&mut self)
        ensures
            !final(self).graph_dirty_spec(),
            final(self).scene_spec() == old(self).scene_spec(),
            final(self).mirror_spec() == old(self).mirror_spec(),
            final(self).order_spec() == old(self).order_spec(),
            final(self).fences_spec() == old(self).fences_spec(),
            final(self).previous_spec() == old(self).previous_spec(),
            final(self).extent_spec() == old(self).extent_spec(),
            final(self).framebuffers_spec() == old(self).framebuffers_spec(),
    {
        self.graph_dirty = false;
    }

    /// Decides how the frame goes on after acquiring an image: an
    /// out-of-date swapchain drops the frame for recreation; an acquired
    /// image is drawn after waiting for its own fence only.
    pub fn begin_frame(&self, outcome: AcquireOutcome) -> (r: Result<FrameStep, FrameError>)
        ensures
            r == match outcome {
                AcquireOutcome::OutOfDate => Ok(FrameStep::Recreate),
                AcquireOutcome::Failed => Err(FrameError::AcquireFailed),
                AcquireOutcome::Acquired { image, suboptimal } => if image < self.fences_spec().len() {
                    Ok(FrameStep::Render {
                        image,
                        wait_fence: self.fences_spec()[image as int] is Some,
                        suboptimal,
                    })
                } else {
                    Err(FrameError::ImageOutOfRange)
                },
            },
    {
        match outcome {
            AcquireOutcome::OutOfDate => Ok(FrameStep::Recreate),
            AcquireOutcome::Failed => Err(FrameError::AcquireFailed),
            AcquireOutcome::Acquired { image, suboptimal } => {
                if image < self.fences.len() {
                    Ok(FrameStep::Render { image, wait_fence: self.fences[image].is_some(), suboptimal })
                } else {
                    Err(FrameError::ImageOutOfRange)
                }
            },
        }
    }

    /// Records how submitting the frame for `image` went: its fence goes to
    /// that image's slot (none if the flush failed), and the image becomes
    /// the previous one. Returns whether the swapchain must be recreated.
    pub fn end_frame(&mut self, image: usize, outcome: PresentOutcome<F>, suboptimal: bool) -> (r: bool)
        requires
            old(self).wf(),
            image < old(self).fences_spec().len(),
        ensures
            final(self).wf(),
            final(self).fences_spec() == old(self).fences_spec().update(image as int, match outcome {
                PresentOutcome::Flushed(f) => Some(f),
                _ => None,
            }),
            final(self).previous_spec() == image,
            r == (suboptimal || outcome is OutOfDate),
            final(self).scene_spec() == old(self).scene_spec(),
            final(self).mirror_spec() == old(self).mirror_spec(),
            final(self).order_spec() == old(self).order_spec(),
            final(self).extent_spec() == old(self).extent_spec(),
            final(self).framebuffers_spec() == old(self).framebuffers_spec(),
            final(self).graph_dirty_spec() == old(self).graph_dirty_spec(),
    {
        let (slot, out_of_date) = match outcome {
            PresentOutcome::Flushed(f) => (Some(f), false),
            PresentOutcome::OutOfDate => (None, true),
            PresentOutcome::Failed => (None, false),
        };
        self.fences.set(image, slot);
        self.previous_fence_i = image;
        suboptimal || out_of_date
    }

    /// Rebuilds the swapchain bookkeeping for a new size. A zero-area extent
    /// (or no images) is refused and changes nothing. Otherwise one
    /// framebuffer is made per image, fence slots are kept if the image
    /// count is unchanged (else emptied), every pipeline's device object is
    /// dropped so that it is built again for the new viewport and mirror
    /// images, and the command buffers are marked stale.
    pub fn recreate(&mut self, extent: (u32, u32), image_count: usize) -> (r: Result<(), FrameError>)
        requires
            old(self).wf(),
        ensures
            final(self).wf(),
            match r {
                Err(e) => {
                    &&& extent.0 == 0 || extent.1 == 0 || image_count == 0
                    &&& *final(self) == *old(self)
                    &&& e == (if extent.0 == 0 || extent.1 == 0 { FrameError::ZeroExtent } else { FrameError::NoImages })
                },
                Ok(()) => {
                    &&& extent.0 != 0 && extent.1 != 0 && image_count >= 1
                    &&& final(self).extent_spec() == extent
                    &&& final(self).framebuffers_spec() == image_count
                    &&& final(self).fences_spec().len() == image_count
                    &&& image_count == old(self).fences_spec().len()
                        ==> final(self).fences_spec() == old(self).fences_spec()
                            && final(self).previous_spec() == old(self).previous_spec()
                    &&& image_count != old(self).fences_spec().len()
                        ==> (forall|i: int| 0 <= i < image_count ==> final(self).fences_spec()[i] is None)
                            && final(self).previous_spec() == 0
                    &&& final(self).graph_dirty_spec()
                    &&& final(self).order_spec() == old(self).order_spec()
                    &&& final(self).scene_spec().len() == old(self).scene_spec().len()
                    &&& final(self).mirror_spec().len() == old(self).mirror_spec().len()
                    &&& forall|i: int| 0 <= i < old(self).scene_spec().len() ==> {
                        &&& (#[trigger] final(self).scene_spec()[i]).built() is None
                        &&& final(self).scene_spec()[i].same_config(&old(self).scene_spec()[i])
                    }
                    &&& forall|i: int| 0 <= i < old(self).mirror_spec().len() ==> {
                        &&& (#[trigger] final(self).mirror_spec()[i]).built() is None
                        &&& final(self).mirror_spec()[i].same_config(&old(self).mirror_spec()[i])
                    }
                },
            },
    {
        if extent.0 == 0 || extent.1 == 0 {
            return Err(FrameError::ZeroExtent);
        }
        if image_count == 0 {
            return Err(FrameError::NoImages);
        }
        invalidate_all(&mut self.scene);
        invalidate_all(&mut self.mirror);
        if image_count != self.fences.len() {
            let mut fences: Vec<Option<F>> = Vec::new();
            let mut i: usize = 0;
            while i < image_count
                invariant
                    i <= image_count,
                    fences.len() == i,
                    forall|j: int| 0 <= j < i ==> fences@[j] is None,
                decreases image_count - i,
            {
                fences.push(None);
                i = i + 1;
            }
            self.fences = fences;
            self.previous_fence_i = 0;
        }
        self.extent = extent;
        self.framebuffer_count = image_count;
        self.graph_dirty = true;
        Ok(())
    }

    /// The fence of the last frame submitted for `image`.
    pub fn fence(&self, image: usize) -> (r: Option<&F>)
        requires
            image < self.fences_spec().len(),
        ensures
            r == match self.fences_spec()[image as int] {
                Some(f) => Some(&f),
                None => None::<&F>,
            },
    {
        self.fences[image].as_ref()
    }

    /// The fence of the frame submitted last, which the next frame's work
    /// is joined to.
    pub fn previous_fence(&self) -> (r: Option<&F>)
        requires
            self.wf(),
        ensures
            r == match self.fences_spec()[self.previous_spec() as int] {
                Some(f) => Some(&f),
                None => None::<&F>,
            },
    {
        self.fences[self.previous_fence_i].as_ref()
    }
}

} // verus!
