//! Hot-reloadable shader handles: the compile state machine of one shader
//! stage, independent of the compiler and of the file watcher that drive it.
use vstd::prelude::*;

verus! {

/// Pipeline stage a shader is compiled for.
#[derive(PartialEq, Eq, Structural, Clone, Copy, Debug)]
pub enum ShaderStage {
    Vertex,
    Fragment,
}

/// What a call of [`HotShader::reload`] decided.
#[derive(PartialEq, Eq, Structural, Clone, Copy, Debug)]
pub enum ReloadStep {
    /// Nothing changed and no compile is running.
    UpToDate,
    /// A compile queued earlier is still running; nothing new was queued.
    AlreadyCompiling,
    /// A new compile must be queued now by the caller; the handle counts it
    /// as running until [`HotShader::finish_compile`] or
    /// [`HotShader::dispatch_failed`] is called.
    Dispatch,
}

impl ReloadStep {
    /// Whether a compile is in flight after the call that returned this step.
    pub fn in_flight(self) -> (r: bool)
        ensures
            r == (self != ReloadStep::UpToDate),
    {
        !matches!(self, ReloadStep::UpToDate)
    }
}

/// Abstract state of a [`HotShader`].
pub ghost struct ShaderState<M> {
    /// The handle has a source path (it is not a built-in module).
    pub hot: bool,
    /// A compile of this handle is queued or running.
    pub compiling: bool,
    /// The source changed since the last compile was queued.
    pub dirty: bool,
    /// The last successfully compiled module.
    pub module: Option<M>,
}

impl<M> ShaderState<M> {
    /// A built-in handle is never compiling and never dirty.
    pub open spec fn wf(self) -> bool {
        !self.hot ==> !self.compiling && !self.dirty
    }

    /// What `reload(forced)` decides in this state.
    pub open spec fn reload_step(self, forced: bool) -> ReloadStep {
        if self.compiling {
            ReloadStep::AlreadyCompiling
        } else if self.hot && (self.dirty || forced) {
            ReloadStep::Dispatch
        } else {
            ReloadStep::UpToDate
        }
    }

    /// The state after `reload(forced)`.
    pub open spec fn after_reload(self, forced: bool) -> ShaderState<M> {
        let step = self.reload_step(forced);
        ShaderState {
            compiling: step != ReloadStep::UpToDate,
            dirty: self.dirty && step != ReloadStep::Dispatch,
            ..self
        }
    }

    /// The state after the running compile ended with `result`.
    pub open spec fn after_compile(self, result: Option<M>) -> ShaderState<M> {
        ShaderState {
            compiling: false,
            module: match result {
                Some(m) => Some(m),
                None => self.module,
            },
            ..self
        }
    }
}

/// One shader stage whose source may change on disk while the program runs.
///
/// `M` is the compiled module. The handle keeps the last module that compiled
/// successfully; a failed compile never takes it away.
pub struct HotShader<M> {
    path: Option<String>,
    stage: ShaderStage,
    is_compiling: bool,
    code_has_changed: bool,
    module: Option<M>,
}

impl<M> View for HotShader<M> {
    type V = ShaderState<M>;

    closed spec fn view(&self) -> ShaderState<M> {
        ShaderState {
            hot: self.path is Some,
            compiling: self.is_compiling,
            dirty: self.code_has_changed,
            module: self.module,
        }
    }
}

impl<M> HotShader<M> {
    /// Source path, or `None` for a built-in module that never recompiles.
    pub closed spec fn path_spec(&self) -> Option<Seq<char>> {
        match self.path {
            Some(p) => Some(p@),
            None => None,
        }
    }

    pub closed spec fn stage_spec(&self) -> ShaderStage {
        self.stage
    }

    /// A handle for the shader source at `path`; it is dirty, so the first
    /// `reload` queues the initial compile.
    pub fn new(path: String, stage: ShaderStage) -> (r: Self)
        ensures
            r@ == (ShaderState::<M> { hot: true, compiling: false, dirty: true, module: None }),
            r.path_spec() == Some(path@),
            r.stage_spec() == stage,
    {
        HotShader { path: Some(path), stage, is_compiling: false, code_has_changed: true, module: None }
    }

    /// A handle around a module built into the program; it never recompiles.
    pub fn new_nonhot(module: M, stage: ShaderStage) -> (r: Self)
        ensures
            r@ == (ShaderState { hot: false, compiling: false, dirty: false, module: Some(module) }),
            r.path_spec() is None,
            r.stage_spec() == stage,
    {
        HotShader { path: None, stage, is_compiling: false, code_has_changed: false, module: Some(module) }
    }

    pub fn new_vert(path: String) -> (r: Self)
        ensures
            r@ == (ShaderState::<M> { hot: true, compiling: false, dirty: true, module: None }),
            r.path_spec() == Some(path@),
            r.stage_spec() == ShaderStage::Vertex,
    {
        Self::new(path, ShaderStage::Vertex)
    }

    pub fn new_frag(path: String) -> (r: Self)
        ensures
            r@ == (ShaderState::<M> { hot: true, compiling: false, dirty: true, module: None }),
            r.path_spec() == Some(path@),
            r.stage_spec() == ShaderStage::Fragment,
    {
        Self::new(path, ShaderStage::Fragment)
    }

    pub fn path(&self) -> (r: Option<&String>)
        ensures
            r is Some <==> self@.hot,
            match r {
                Some(p) => self.path_spec() == Some(p@),
                None => self.path_spec() is None,
            },
    {
        self.path.as_ref()
    }

    pub fn stage(&self) -> (r: ShaderStage)
        ensures
            r == self.stage_spec(),
    {
        self.stage
    }

    pub fn is_compiling(&self) -> (r: bool)
        ensures
            r == self@.compiling,
    {
        self.is_compiling
    }

    pub fn has_module(&self) -> (r: bool)
        ensures
            r == (self@.module is Some),
    {
        self.module.is_some()
    }

    /// The last successfully compiled module, without waiting for a compile.
    pub fn get_module(&self) -> (r: Option<&M>)
        ensures
            r == match self@.module {
                Some(m) => Some(&m),
                None => None::<&M>,
            },
    {
        self.module.as_ref()
    }

    /// Records that the source file changed on disk.
    pub fn mark_changed(&mut self)
        requires
            old(self)@.wf(),
            old(self)@.hot,
        ensures
            final(self)@ == (ShaderState { dirty: true, ..old(self)@ }),
            final(self).path_spec() == old(self).path_spec(),
            final(self).stage_spec() == old(self).stage_spec(),
    {
        self.code_has_changed = true;
    }

    /// Decides whether to queue a compile: when the source changed or
    /// `forced`, and no compile of this handle is running. The dirty flag is
    /// cleared when the compile is queued, so a failing source is not retried
    /// until it changes again. A built-in handle has no source and never
    /// queues one.
    pub fn reload(&mut self, forced: bool) -> (r: ReloadStep)
        requires
            old(self)@.wf(),
        ensures
            r == old(self)@.reload_step(forced),
            final(self)@ == old(self)@.after_reload(forced),
            final(self).path_spec() == old(self).path_spec(),
            final(self).stage_spec() == old(self).stage_spec(),
    {
        if self.is_compiling {
            return ReloadStep::AlreadyCompiling;
        }
        if self.path.is_none() || (!self.code_has_changed && !forced) {
            return ReloadStep::UpToDate;
        }
        self.code_has_changed = false;
        self.is_compiling = true;
        ReloadStep::Dispatch
    }

    /// The compile queued by the last `Dispatch` could not be handed to the
    /// compiler; the handle is idle again.
    pub fn dispatch_failed(&mut self)
        requires
            old(self)@.wf(),
        ensures
            final(self)@ == (ShaderState { compiling: false, ..old(self)@ }),
            final(self).path_spec() == old(self).path_spec(),
            final(self).stage_spec() == old(self).stage_spec(),
    {
        self.is_compiling = false;
    }

    /// A queued compile ended, with the new module or `None` if it failed.
    /// On failure the previous module stays in place.
    pub fn finish_compile(&mut self, result: Option<M>)
        requires
            old(self)@.wf(),
        ensures
            final(self)@ == old(self)@.after_compile(result),
            final(self).path_spec() == old(self).path_spec(),
            final(self).stage_spec() == old(self).stage_spec(),
    {
        self.is_compiling = false;
        if let Some(m) = result {
            self.module = Some(m);
        }
    }
}

/// Every operation keeps a handle well formed.
pub proof fn lemma_transitions_keep_wf<M>(s: ShaderState<M>, forced: bool, result: Option<M>)
    requires
        s.wf(),
    ensures
        s.after_reload(forced).wf(),
        s.after_compile(result).wf(),
{
}

/// Two reloads in a row without a file change in between queue at most one
/// compile: if the first one left a compile in flight, the second one finds
/// it running and queues nothing.
pub proof fn lemma_reload_twice_dispatches_once<M>(s: ShaderState<M>, forced: bool)
    requires
        s.wf(),
    ensures
        !(s.reload_step(forced) == ReloadStep::Dispatch
            && s.after_reload(forced).reload_step(false) == ReloadStep::Dispatch),
        s.reload_step(forced) != ReloadStep::UpToDate
            ==> s.after_reload(forced).reload_step(false) == ReloadStep::AlreadyCompiling,
        s.reload_step(forced) == ReloadStep::UpToDate
            ==> s.after_reload(forced).reload_step(false) == ReloadStep::UpToDate,
{
}

/// A change that arrives while a compile runs is not lost: once that compile
/// ends (whatever its outcome), the next reload queues one more compile.
pub proof fn lemma_change_during_compile_recompiles<M>(s: ShaderState<M>, forced: bool, result: Option<M>)
    requires
        s.wf(),
        s.compiling,
        s.dirty,
    ensures
        s.after_reload(forced).after_compile(result).reload_step(false) == ReloadStep::Dispatch,
        s.after_compile(result).reload_step(false) == ReloadStep::Dispatch,
{
}

/// A compile that fails after a successful one leaves the module of the
/// successful one in place.
pub proof fn lemma_failed_compile_keeps_module<M>(s: ShaderState<M>, good: M, forced: bool)
    requires
        s.wf(),
    ensures
        s.after_compile(Some(good)).after_reload(forced).after_compile(None).module == Some(good),
{
}

} // verus!
