use shaderpixel::shader::{HotShader, ReloadStep, ShaderStage};

#[test]
fn first_reload_queues_the_initial_compile() {
    let mut s: HotShader<u32> = HotShader::new_vert("assets/shaders/art2d.vert".to_owned());
    assert_eq!(s.stage(), ShaderStage::Vertex);
    assert!(s.get_module().is_none());
    assert_eq!(s.reload(false), ReloadStep::Dispatch);
    assert!(s.is_compiling());
}

#[test]
fn reload_twice_dispatches_once() {
    let mut s: HotShader<u32> = HotShader::new_frag("a.frag".to_owned());
    assert_eq!(s.reload(false), ReloadStep::Dispatch);
    assert_eq!(s.reload(false), ReloadStep::AlreadyCompiling);
    assert!(s.reload(false).in_flight());
    s.finish_compile(Some(1));
    assert_eq!(s.reload(false), ReloadStep::UpToDate);
    assert!(!s.reload(false).in_flight());
    assert_eq!(s.reload(true), ReloadStep::Dispatch);
}

#[test]
fn failed_compile_keeps_last_module() {
    let mut s: HotShader<u32> = HotShader::new_frag("a.frag".to_owned());
    assert_eq!(s.reload(false), ReloadStep::Dispatch);
    s.finish_compile(Some(7));
    assert_eq!(s.get_module(), Some(&7));
    s.mark_changed();
    assert_eq!(s.reload(false), ReloadStep::Dispatch);
    assert_eq!(s.get_module(), Some(&7));
    s.finish_compile(None);
    assert_eq!(s.get_module(), Some(&7));
    assert!(!s.is_compiling());
    assert_eq!(s.reload(false), ReloadStep::UpToDate);
}

#[test]
fn change_during_compile_recompiles_once_more() {
    let mut s: HotShader<u32> = HotShader::new_frag("a.frag".to_owned());
    assert_eq!(s.reload(false), ReloadStep::Dispatch);
    s.mark_changed();
    assert_eq!(s.reload(false), ReloadStep::AlreadyCompiling);
    s.finish_compile(Some(1));
    assert_eq!(s.reload(false), ReloadStep::Dispatch);
    s.finish_compile(Some(2));
    assert_eq!(s.reload(false), ReloadStep::UpToDate);
    assert_eq!(s.get_module(), Some(&2));
}

#[test]
fn dispatch_failure_leaves_handle_idle() {
    let mut s: HotShader<u32> = HotShader::new_frag("a.frag".to_owned());
    assert_eq!(s.reload(false), ReloadStep::Dispatch);
    s.dispatch_failed();
    assert!(!s.is_compiling());
    assert_eq!(s.reload(false), ReloadStep::UpToDate);
}

#[test]
fn builtin_module_never_recompiles() {
    let mut s: HotShader<u32> = HotShader::new_nonhot(3, ShaderStage::Fragment);
    assert!(s.path().is_none());
    assert_eq!(s.reload(true), ReloadStep::UpToDate);
    assert_eq!(s.get_module(), Some(&3));
}

#[test]
fn change_before_reload_during_compile_recompiles_after_it_ends() {
    let mut s: HotShader<u32> = HotShader::new_frag("a.frag".to_owned());
    assert_eq!(s.reload(false), ReloadStep::Dispatch);
    s.mark_changed();
    s.finish_compile(None);
    assert_eq!(s.reload(false), ReloadStep::Dispatch);
    assert!(s.path().is_some());
}
