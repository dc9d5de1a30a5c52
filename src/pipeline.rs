//! One draw pipeline: which shader handles it uses, whether it is enabled,
//! and whether its device pipeline object is built.
use vstd::prelude::*;
use crate::shader::{HotShader, ReloadStep, ShaderState};

verus! {

/// Which faces the rasterizer discards.
#[derive(PartialEq, Eq, Structural, Clone, Copy, Debug)]
pub enum CullMode {
    NoCulling,
    Front,
    Back,
}

/// Why a pipeline's resources could not be bound.
#[derive(PartialEq, Eq, Structural, Clone, Copy, Debug)]
pub enum PipelineError {
    /// The shaders read this binding of set 0, but the pipeline has nothing
    /// to bind there.
    MissingBinding(u32),
}

/// Binding of the vertex-stage uniform buffer.
pub const BINDING_VERT_UNIFORMS: u32 = 0;
/// Binding of the fragment-stage uniform buffer.
pub const BINDING_FRAG_UNIFORMS: u32 = 1;
/// Binding of the sampled texture.
pub const BINDING_TEXTURE: u32 = 2;
/// Binding of the mirror feedback image.
pub const BINDING_MIRROR: u32 = 3;

/// The bindings a pipeline can supply: both uniform buffers, the texture if
/// it has one, the mirror image if it has one, in binding order.
pub open spec fn supplied_bindings(has_texture: bool, has_mirror: bool) -> Seq<u32> {
    seq![BINDING_VERT_UNIFORMS, BINDING_FRAG_UNIFORMS]
        + (if has_texture { seq![BINDING_TEXTURE] } else { Seq::empty() })
        + (if has_mirror { seq![BINDING_MIRROR] } else { Seq::empty() })
}

/// Binding `b` of set 0 is one the pipeline can supply.
pub open spec fn supplies(has_texture: bool, has_mirror: bool, b: u32) -> bool {
    b == BINDING_VERT_UNIFORMS || b == BINDING_FRAG_UNIFORMS
        || (b == BINDING_TEXTURE && has_texture) || (b == BINDING_MIRROR && has_mirror)
}

/// The supplied bindings that the shaders read, in binding order.
pub open spec fn bound_bindings(has_texture: bool, has_mirror: bool, required: Seq<u32>) -> Seq<u32> {
    supplied_bindings(has_texture, has_mirror).filter(|b: u32| required.contains(b))
}

/// How a pipeline is to be made.
pub struct MyPipelineCreateInfo {
    pub name: String,
    /// Index of the vertex shader handle in the shader registry.
    pub vs: usize,
    /// Index of the fragment shader handle in the shader registry.
    pub fs: usize,
    pub enable_pipeline: bool,
    pub enable_depth_test: bool,
    pub cull_mode: CullMode,
}

impl Default for MyPipelineCreateInfo {
    fn default() -> (r: Self)
        ensures
            r.name@ == Seq::<char>::empty(),
            r.vs == 0,
            r.fs == 0,
            r.enable_pipeline,
            r.enable_depth_test,
            r.cull_mode == CullMode::Back,
    {
        MyPipelineCreateInfo {
            name: String::new(),
            vs: 0,
            fs: 0,
            enable_pipeline: true,
            enable_depth_test: true,
            cull_mode: CullMode::Back,
        }
    }
}

/// The create infos of an art object's two pipelines: the scene one, drawn
/// as the object says and culling back faces, and its mirror-pass twin,
/// sharing the same shader handles, culling front faces (the reflection
/// flips the winding) and drawn only if the object is enabled and is not
/// itself the mirror.
pub fn art_pipeline_infos(
    name: String,
    mirror_name: String,
    vs: usize,
    fs: usize,
    enable_pipeline: bool,
    enable_depth_test: bool,
    is_mirror: bool,
) -> (r: (MyPipelineCreateInfo, MyPipelineCreateInfo))
    ensures
        r.0.name@ == name@,
        r.0.vs == vs,
        r.0.fs == fs,
        r.0.enable_pipeline == enable_pipeline,
        r.0.enable_depth_test == enable_depth_test,
        r.0.cull_mode == CullMode::Back,
        r.1.name@ == mirror_name@,
        r.1.vs == vs,
        r.1.fs == fs,
        r.1.enable_pipeline == (enable_pipeline && !is_mirror),
        r.1.enable_depth_test == enable_depth_test,
        r.1.cull_mode == CullMode::Front,
{
    (
        MyPipelineCreateInfo { name, vs, fs, enable_pipeline, enable_depth_test, cull_mode: CullMode::Back },
        MyPipelineCreateInfo {
            name: mirror_name,
            vs,
            fs,
            enable_pipeline: enable_pipeline && !is_mirror,
            enable_depth_test,
            cull_mode: CullMode::Front,
        },
    )
}

/// What a call of [`MyPipeline::reload_shaders`] found and decided.
pub struct ShaderReload {
    /// A compile of one of the pipeline's shaders is in flight.
    pub rebuilding: bool,
    /// Registry indices of the handles whose compile the caller must queue.
    pub dispatch: Vec<usize>,
}

/// A draw pipeline. `P` is the built device pipeline object with its
/// descriptor sets; it is absent until both shaders have a module, and is
/// dropped whenever one of its shaders is found compiling or is swapped.
pub struct MyPipeline<P> {
    name: String,
    art_idx: Option<usize>,
    vs: usize,
    fs: usize,
    pipeline: Option<P>,
    has_texture: bool,
    has_mirror_buffer: bool,
    enable_pipeline: bool,
    enable_depth_test: bool,
    cull_mode: CullMode,
}

/// All shader handles of the registry are well formed.
pub open spec fn shaders_wf<M>(shaders: Seq<HotShader<M>>) -> bool {
    forall|i: int| 0 <= i < shaders.len() ==> (#[trigger] shaders[i])@.wf()
}

/// The abstract states of a registry of shader handles.
pub open spec fn views<M>(s: Seq<HotShader<M>>) -> Seq<ShaderState<M>> {
    s.map_values(|h: HotShader<M>| h@)
}

/// The states after reloading the vertex handle `vs`, then the fragment
/// handle `fs` (which may be the same handle).
pub open spec fn reload_pair<M>(s: Seq<ShaderState<M>>, vs: int, fs: int, forced: bool) -> Seq<ShaderState<M>> {
    let s1 = s.update(vs, s[vs].after_reload(forced));
    s1.update(fs, s1[fs].after_reload(forced))
}

/// Reloading the pair leaves a compile of either in flight.
pub open spec fn pair_in_flight<M>(s: Seq<ShaderState<M>>, vs: int, fs: int, forced: bool) -> bool {
    let s1 = s.update(vs, s[vs].after_reload(forced));
    s[vs].reload_step(forced) != ReloadStep::UpToDate || s1[fs].reload_step(forced) != ReloadStep::UpToDate
}

/// The handles whose compile reloading the pair queues, in call order.
pub open spec fn pair_dispatch<M>(s: Seq<ShaderState<M>>, vs: int, fs: int, forced: bool) -> Seq<usize> {
    let s1 = s.update(vs, s[vs].after_reload(forced));
    (if s[vs].reload_step(forced) == ReloadStep::Dispatch { seq![vs as usize] } else { Seq::empty() })
        + (if s1[fs].reload_step(forced) == ReloadStep::Dispatch { seq![fs as usize] } else { Seq::empty() })
}

impl<P> MyPipeline<P> {
    pub closed spec fn name_spec(&self) -> Seq<char> {
        self.name@
    }

    pub closed spec fn art_idx_spec(&self) -> Option<usize> {
        self.art_idx
    }

    pub closed spec fn vs_spec(&self) -> usize {
        self.vs
    }

    pub closed spec fn fs_spec(&self) -> usize {
        self.fs
    }

    /// The built device pipeline object, if any.
    pub closed spec fn built(&self) -> Option<P> {
        self.pipeline
    }

    /// The pipeline takes part in drawing.
    pub closed spec fn enabled(&self) -> bool {
        self.enable_pipeline
    }

    /// The pipeline binds the mirror feedback image.
    pub closed spec fn has_mirror_spec(&self) -> bool {
        self.has_mirror_buffer
    }

    /// Everything but the built device object is the same in both.
    pub open spec fn same_config(&self, o: &Self) -> bool {
        &&& self.name_spec() == o.name_spec()
        &&& self.art_idx_spec() == o.art_idx_spec()
        &&& self.vs_spec() == o.vs_spec()
        &&& self.fs_spec() == o.fs_spec()
        &&& self.has_texture_spec() == o.has_texture_spec()
        &&& self.has_mirror_spec() == o.has_mirror_spec()
        &&& self.enabled() == o.enabled()
        &&& self.depth_test_spec() == o.depth_test_spec()
        &&& self.cull_mode_spec() == o.cull_mode_spec()
    }

    pub closed spec fn has_texture_spec(&self) -> bool {
        self.has_texture
    }

    pub closed spec fn depth_test_spec(&self) -> bool {
        self.enable_depth_test
    }

    pub closed spec fn cull_mode_spec(&self) -> CullMode {
        self.cull_mode
    }

    /// Both shader indices point into a registry of `n` handles.
    pub open spec fn wf(&self, n: nat) -> bool {
        self.vs_spec() < n && self.fs_spec() < n
    }

    /// A pipeline whose device object is not built yet.
    pub fn new(
        create_info: MyPipelineCreateInfo,
        art_idx: Option<usize>,
        has_texture: bool,
        has_mirror_buffer: bool,
    ) -> (r: Self)
        ensures
            r.name_spec() == create_info.name@,
            r.art_idx_spec() == art_idx,
            r.vs_spec() == create_info.vs,
            r.fs_spec() == create_info.fs,
            r.built() is None,
            r.has_texture_spec() == has_texture,
            r.has_mirror_spec() == has_mirror_buffer,
            r.enabled() == create_info.enable_pipeline,
            r.depth_test_spec() == create_info.enable_depth_test,
            r.cull_mode_spec() == create_info.cull_mode,
    {
        MyPipeline {
            name: create_info.name,
            art_idx,
            vs: create_info.vs,
            fs: create_info.fs,
            pipeline: None,
            has_texture,
            has_mirror_buffer,
            enable_pipeline: create_info.enable_pipeline,
            enable_depth_test: create_info.enable_depth_test,
            cull_mode: create_info.cull_mode,
        }
    }

    pub fn name(&self) -> (r: &str)
        ensures
            r@ == self.name_spec(),
    {
        self.name.as_str()
    }

    pub fn get_pipeline(&self) -> (r: Option<&P>)
        ensures
            r == match self.built() {
                Some(p) => Some(&p),
                None => None::<&P>,
            },
    {
        self.pipeline.as_ref()
    }

    pub fn is_built(&self) -> (r: bool)
        ensures
            r == (self.built() is Some),
    {
        self.pipeline.is_some()
    }

    pub fn get_art_idx(&self) -> (r: Option<usize>)
        ensures
            r == self.art_idx_spec(),
    {
        self.art_idx
    }

    pub fn shader_indices(&self) -> (r: (usize, usize))
        ensures
            r == (self.vs_spec(), self.fs_spec()),
    {
        (self.vs, self.fs)
    }

    pub fn enable_depth_test(&self) -> (r: bool)
        ensures
            r == self.depth_test_spec(),
    {
        self.enable_depth_test
    }

    pub fn cull_mode(&self) -> (r: CullMode)
        ensures
            r == self.cull_mode_spec(),
    {
        self.cull_mode
    }

    pub fn has_texture(&self) -> (r: bool)
        ensures
            r == self.has_texture_spec(),
    {
        self.has_texture
    }

    pub fn is_enabled(&self) -> (r: bool)
        ensures
            r == self.enabled(),
    {
        self.enable_pipeline
    }

    pub fn has_mirror_buffer(&self) -> (r: bool)
        ensures
            r == self.has_mirror_spec(),
    {
        self.has_mirror_buffer
    }

    /// Turns drawing of this pipeline on or off.
    pub fn set_enabled(&mut self, enable: bool)
        ensures
            final(self).enabled() == enable,
            final(self).built() == old(self).built(),
            final(self).name_spec() == old(self).name_spec(),
            final(self).art_idx_spec() == old(self).art_idx_spec(),
            final(self).vs_spec() == old(self).vs_spec(),
            final(self).fs_spec() == old(self).fs_spec(),
            final(self).has_texture_spec() == old(self).has_texture_spec(),
            final(self).has_mirror_spec() == old(self).has_mirror_spec(),
            final(self).depth_test_spec() == old(self).depth_test_spec(),
            final(self).cull_mode_spec() == old(self).cull_mode_spec(),
    {
        self.enable_pipeline = enable;
    }

    /// Swaps in other shader handles. A handle that is the same as the one
    /// in place changes nothing; a different one drops the device object.
    pub fn set_shaders(&mut self, vs: usize, fs: usize)
        ensures
            final(self).vs_spec() == vs,
            final(self).fs_spec() == fs,
            final(self).built() == (if vs == old(self).vs_spec() && fs == old(self).fs_spec() {
                old(self).built()
            } else {
                None
            }),
            final(self).name_spec() == old(self).name_spec(),
            final(self).art_idx_spec() == old(self).art_idx_spec(),
            final(self).has_texture_spec() == old(self).has_texture_spec(),
            final(self).has_mirror_spec() == old(self).has_mirror_spec(),
            final(self).enabled() == old(self).enabled(),
            final(self).depth_test_spec() == old(self).depth_test_spec(),
            final(self).cull_mode_spec() == old(self).cull_mode_spec(),
    {
        if self.vs != vs {
            self.vs = vs;
            self.pipeline = None;
        }
        if self.fs != fs {
            self.fs = fs;
            self.pipeline = None;
        }
    }

    /// Both shaders of an enabled pipeline have a module and neither is
    /// compiling: the device object can be built now.
    pub open spec fn can_build_spec<M>(&self, shaders: Seq<HotShader<M>>) -> bool {
        &&& self.enabled()
        &&& shaders[self.vs_spec() as int]@.module is Some
        &&& shaders[self.fs_spec() as int]@.module is Some
        &&& !shaders[self.vs_spec() as int]@.compiling
        &&& !shaders[self.fs_spec() as int]@.compiling
    }

    pub fn can_build<M>(&self, shaders: &Vec<HotShader<M>>) -> (r: bool)
        requires
            self.wf(shaders.len() as nat),
        ensures
            r == self.can_build_spec(shaders@),
    {
        self.enable_pipeline && shaders[self.vs].has_module() && shaders[self.fs].has_module()
            && !shaders[self.vs].is_compiling() && !shaders[self.fs].is_compiling()
    }

    /// Puts a freshly built device object in place.
    pub fn install(&mut self, built: P)
        ensures
            final(self).built() == Some(built),
            final(self).same_config(old(self)),
    {
        self.pipeline = Some(built);
    }

    /// Drops the device object, so that it is built again (after the
    /// viewport or the attachments changed).
    pub fn invalidate(&mut self)
        ensures
            final(self).built() is None,
            final(self).same_config(old(self)),
    {
        self.pipeline = None;
    }

    /// Sets whether the mirror feedback image is bound; the device object
    /// is dropped, since its descriptor sets change.
    pub fn set_mirror_buffer(&mut self, has_mirror: bool)
        ensures
            final(self).built() is None,
            final(self).has_mirror_spec() == has_mirror,
            final(self).name_spec() == old(self).name_spec(),
            final(self).art_idx_spec() == old(self).art_idx_spec(),
            final(self).vs_spec() == old(self).vs_spec(),
            final(self).fs_spec() == old(self).fs_spec(),
            final(self).has_texture_spec() == old(self).has_texture_spec(),
            final(self).enabled() == old(self).enabled(),
            final(self).depth_test_spec() == old(self).depth_test_spec(),
            final(self).cull_mode_spec() == old(self).cull_mode_spec(),
    {
        self.has_mirror_buffer = has_mirror;
        self.pipeline = None;
    }

    /// The bindings of set 0 to write for each frame's descriptor set, given
    /// the bindings the shaders read: those the pipeline supplies and the
    /// shaders read, in binding order. A binding that the shaders read and
    /// the pipeline cannot supply fails the build (the first such one in
    /// `required` is named).
    pub fn descriptor_bindings(&self, required: &Vec<u32>) -> (r: Result<Vec<u32>, PipelineError>)
        ensures
            match r {
                Ok(v) => {
                    &&& forall|k: int| 0 <= k < required.len()
                        ==> supplies(self.has_texture_spec(), self.has_mirror_spec(), #[trigger] required@[k])
                    &&& v@ == bound_bindings(self.has_texture_spec(), self.has_mirror_spec(), required@)
                },
                Err(PipelineError::MissingBinding(b)) => exists|k: int| {
                    &&& 0 <= k < required.len()
                    &&& required@[k] == b
                    &&& !supplies(self.has_texture_spec(), self.has_mirror_spec(), b)
                    &&& forall|j: int| 0 <= j < k
                        ==> supplies(self.has_texture_spec(), self.has_mirror_spec(), #[trigger] required@[j])
                },
            },
    {
        let mut k: usize = 0;
        while k < required.len()
            invariant
                k <= required.len(),
                forall|j: int| 0 <= j < k
                    ==> supplies(self.has_texture_spec(), self.has_mirror_spec(), #[trigger] required@[j]),
            decreases required.len() - k,
        {
            let b = required[k];
            let ok = b == BINDING_VERT_UNIFORMS || b == BINDING_FRAG_UNIFORMS
                || (b == BINDING_TEXTURE && self.has_texture) || (b == BINDING_MIRROR && self.has_mirror_buffer);
            if !ok {
                return Err(PipelineError::MissingBinding(b));
            }
            k = k + 1;
        }
        let mut supplied: Vec<u32> = vec![BINDING_VERT_UNIFORMS, BINDING_FRAG_UNIFORMS];
        if self.has_texture {
            supplied.push(BINDING_TEXTURE);
        }
        if self.has_mirror_buffer {
            supplied.push(BINDING_MIRROR);
        }
        assert(supplied@ =~= supplied_bindings(self.has_texture_spec(), self.has_mirror_spec()));
        let mut out: Vec<u32> = Vec::new();
        let mut i: usize = 0;
        while i < supplied.len()
            invariant
                i <= supplied.len(),
                supplied@ == supplied_bindings(self.has_texture_spec(), self.has_mirror_spec()),
                out@ == supplied@.subrange(0, i as int).filter(|b: u32| required@.contains(b)),
            decreases supplied.len() - i,
        {
            let b = supplied[i];
            let wanted = contains_u32(required, b);
            proof {
                let f = |b: u32| required@.contains(b);
                assert(supplied@.subrange(0, i + 1).drop_last() =~= supplied@.subrange(0, i as int));
                reveal(Seq::filter);
            }
            if wanted {
                out.push(b);
            }
            i = i + 1;
        }
        assert(supplied@.subrange(0, supplied.len() as int) =~= supplied@);
        Ok(out)
    }

    /// Reloads both shaders of an enabled pipeline (a disabled one is left
    /// alone). Reports whether a compile of either is in flight, and which
    /// handles must be queued. While a compile of either is in flight (queued
    /// now, or earlier by a pipeline sharing the handle), the device object
    /// is dropped, so that it is built again once the new module is in.
    pub fn reload_shaders<M>(&mut self, shaders: &mut Vec<HotShader<M>>, forced: bool) -> (r: ShaderReload)
        requires
            old(self).wf(old(shaders).len() as nat),
            shaders_wf(old(shaders)@),
        ensures
            final(shaders).len() == old(shaders).len(),
            shaders_wf(final(shaders)@),
            views(final(shaders)@) == (if old(self).enabled() {
                reload_pair(views(old(shaders)@), old(self).vs_spec() as int, old(self).fs_spec() as int, forced)
            } else {
                views(old(shaders)@)
            }),
            r.rebuilding == (old(self).enabled()
                && pair_in_flight(views(old(shaders)@), old(self).vs_spec() as int, old(self).fs_spec() as int, forced)),
            r.dispatch@ == (if old(self).enabled() {
                pair_dispatch(views(old(shaders)@), old(self).vs_spec() as int, old(self).fs_spec() as int, forced)
            } else {
                Seq::empty()
            }),
            final(self).built() == (if r.rebuilding { None } else { old(self).built() }),
            final(self).same_config(old(self)),
            forall|i: int| 0 <= i < old(shaders).len() ==> {
                &&& (#[trigger] final(shaders)@[i]).path_spec() == old(shaders)@[i].path_spec()
                &&& final(shaders)@[i].stage_spec() == old(shaders)@[i].stage_spec()
            },
    {
        let mut dispatch: Vec<usize> = Vec::new();
        if !self.enable_pipeline {
            assert(dispatch@ =~= Seq::<usize>::empty());
            return ShaderReload { rebuilding: false, dispatch };
        }
        let ghost s0 = views(shaders@);
        let step_v = shaders[self.vs].reload(forced);
        let ghost s1 = views(shaders@);
        assert(s1 =~= s0.update(self.vs as int, s0[self.vs as int].after_reload(forced)));
        let step_f = shaders[self.fs].reload(forced);
        assert(views(shaders@) =~= s1.update(self.fs as int, s1[self.fs as int].after_reload(forced)));
        if step_v == ReloadStep::Dispatch {
            dispatch.push(self.vs);
        }
        if step_f == ReloadStep::Dispatch {
            dispatch.push(self.fs);
        }
        let rebuilding = step_v.in_flight() || step_f.in_flight();
        if rebuilding {
            self.pipeline = None;
        }
        assert(dispatch@ =~= pair_dispatch(s0, self.vs as int, self.fs as int, forced));
        ShaderReload { rebuilding, dispatch }
    }
}

fn contains_u32(v: &Vec<u32>, x: u32) -> (r: bool)
    ensures
        r == v@.contains(x),
{
    let mut i: usize = 0;
    while i < v.len()
        invariant
            i <= v.len(),
            forall|j: int| 0 <= j < i ==> v@[j] != x,
        decreases v.len() - i,
    {
        if v[i] == x {
            assert(v@[i as int] == x);
            return true;
        }
        i = i + 1;
    }
    false
}

} // verus!
