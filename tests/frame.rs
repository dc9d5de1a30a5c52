use shaderpixel::frame::{AcquireOutcome, FrameEngine, FrameError, FrameStep, PassKind, PresentOutcome};
use shaderpixel::pipeline::{art_pipeline_infos, CullMode, MyPipeline, MyPipelineCreateInfo, PipelineError};
use shaderpixel::scene::SceneObject;
use shaderpixel::shader::{HotShader, ShaderStage};

fn info(vs: usize, fs: usize, enable: bool) -> MyPipelineCreateInfo {
    MyPipelineCreateInfo { vs, fs, enable_pipeline: enable, ..MyPipelineCreateInfo::default() }
}

fn registry() -> Vec<HotShader<u32>> {
    vec![
        HotShader::new_nonhot(100, ShaderStage::Vertex),
        HotShader::new_nonhot(101, ShaderStage::Fragment),
        HotShader::new_vert("art.vert".to_owned()),
        HotShader::new_frag("one.frag".to_owned()),
        HotShader::new_frag("two.frag".to_owned()),
    ]
}

fn engine() -> FrameEngine<&'static str, u32> {
    let scene = vec![
        MyPipeline::new(info(0, 1, true), None, false, false),
        MyPipeline::new(info(2, 3, true), Some(0), false, true),
        MyPipeline::new(info(2, 4, false), Some(1), true, true),
    ];
    let mirror = vec![
        MyPipeline::new(info(0, 1, true), None, false, false),
        MyPipeline::new(info(2, 3, true), Some(0), false, false),
        MyPipeline::new(info(2, 4, false), Some(1), true, false),
    ];
    FrameEngine::new(scene, mirror, 3, (800, 600), &vec![10, 20])
}

fn obj(enable: bool, vs: usize, fs: usize) -> SceneObject {
    SceneObject {
        dist_key: 0,
        enable_pipeline: enable,
        has_options: false,
        inside_portal: false,
        shader_vert: vs,
        shader_frag: fs,
    }
}

#[test]
fn maintain_queues_compiles_of_enabled_pipelines_only() {
    let mut e = engine();
    let mut shaders = registry();
    let r = e.maintain(&mut shaders, false);
    assert!(r.rebuilding);
    assert_eq!(r.dispatch, vec![2, 3]);
    assert!(shaders[2].is_compiling() && shaders[3].is_compiling());
    assert!(!shaders[4].is_compiling());
    let again = e.maintain(&mut shaders, false);
    assert!(again.rebuilding);
    assert!(again.dispatch.is_empty());
}

#[test]
fn builds_wait_for_compiles_and_drawing_skips_unbuilt() {
    let mut e = engine();
    let mut shaders = registry();
    assert_eq!(e.pending_builds(PassKind::Scene, &shaders), vec![0]);
    e.install(PassKind::Scene, 0, "main");
    e.maintain(&mut shaders, false);
    assert!(e.pending_builds(PassKind::Scene, &shaders).is_empty());
    assert_eq!(e.draw_list(PassKind::Scene), vec![0]);

    shaders[2].finish_compile(Some(1));
    shaders[3].finish_compile(Some(2));
    assert_eq!(e.pending_builds(PassKind::Scene, &shaders), vec![1]);
    e.install(PassKind::Scene, 1, "one");
    assert!(e.graph_dirty());
    assert_eq!(e.draw_list(PassKind::Scene), vec![0, 1]);
    assert_eq!(e.draw_list(PassKind::Mirror), Vec::<usize>::new());
}

#[test]
fn sync_enablement_flips_and_swaps_shaders() {
    let mut e = engine();
    e.install(PassKind::Scene, 1, "one");
    e.mark_recorded();
    let objs = vec![obj(true, 2, 3), obj(false, 2, 4)];
    assert!(!e.sync_enablement(&objs));
    assert!(!e.graph_dirty());
    let objs = vec![obj(false, 2, 4), obj(false, 2, 4)];
    assert!(e.sync_enablement(&objs));
    let p = &e.pipelines(PassKind::Scene)[1];
    assert!(!p.is_enabled());
    assert_eq!(p.shader_indices(), (2, 4));
    assert!(p.get_pipeline().is_none());
    assert!(e.graph_dirty());
}

#[test]
fn acquire_outcomes() {
    let mut e = engine();
    assert_eq!(e.begin_frame(AcquireOutcome::OutOfDate), Ok(FrameStep::Recreate));
    assert_eq!(e.begin_frame(AcquireOutcome::Failed), Err(FrameError::AcquireFailed));
    assert_eq!(
        e.begin_frame(AcquireOutcome::Acquired { image: 3, suboptimal: false }),
        Err(FrameError::ImageOutOfRange)
    );
    assert_eq!(
        e.begin_frame(AcquireOutcome::Acquired { image: 1, suboptimal: false }),
        Ok(FrameStep::Render { image: 1, wait_fence: false, suboptimal: false })
    );
    assert!(!e.end_frame(1, PresentOutcome::Flushed(42), false));
    assert_eq!(e.fence(1), Some(&42));
    assert_eq!(e.previous_fence(), Some(&42));
    assert_eq!(
        e.begin_frame(AcquireOutcome::Acquired { image: 1, suboptimal: true }),
        Ok(FrameStep::Render { image: 1, wait_fence: true, suboptimal: true })
    );
    assert!(e.end_frame(2, PresentOutcome::OutOfDate, false));
    assert_eq!(e.fence(2), None);
    assert_eq!(e.previous_fence(), None);
    assert!(e.end_frame(0, PresentOutcome::Failed, true));
}

#[test]
fn recreate_rejects_zero_area() {
    let mut e = engine();
    e.install(PassKind::Scene, 0, "main");
    e.mark_recorded();
    assert_eq!(e.recreate((0, 600), 3), Err(FrameError::ZeroExtent));
    assert_eq!(e.recreate((800, 0), 3), Err(FrameError::ZeroExtent));
    assert_eq!(e.recreate((800, 600), 0), Err(FrameError::NoImages));
    assert_eq!(e.extent(), (800, 600));
    assert!(!e.graph_dirty());
    assert!(e.pipelines(PassKind::Scene)[0].is_built());
}

#[test]
fn recreate_rebuilds_per_image_and_marks_stale() {
    let mut e = engine();
    e.install(PassKind::Scene, 0, "main");
    e.install(PassKind::Mirror, 0, "main mirror");
    e.end_frame(2, PresentOutcome::Flushed(5), false);
    e.mark_recorded();
    assert_eq!(e.recreate((1024, 768), 3), Ok(()));
    assert_eq!(e.extent(), (1024, 768));
    assert_eq!(e.framebuffer_count(), 3);
    assert_eq!(e.fence(2), Some(&5));
    assert!(e.graph_dirty());
    for pass in [PassKind::Scene, PassKind::Mirror] {
        assert!(e.pipelines(pass).iter().all(|p| !p.is_built()));
    }
    assert_eq!(e.recreate((640, 480), 2), Ok(()));
    assert_eq!(e.framebuffer_count(), 2);
    assert_eq!(e.image_count(), 2);
    assert_eq!(e.fence(0), None);
    assert_eq!(e.fence(1), None);
}

#[test]
fn descriptor_bindings_follow_shader_needs() {
    let plain = MyPipeline::<u32>::new(info(0, 1, true), None, false, false);
    assert_eq!(plain.descriptor_bindings(&vec![1, 0]), Ok(vec![0, 1]));
    assert_eq!(plain.descriptor_bindings(&vec![0]), Ok(vec![0]));
    assert_eq!(plain.descriptor_bindings(&vec![0, 2, 3]), Err(PipelineError::MissingBinding(2)));
    let full = MyPipeline::<u32>::new(info(0, 1, true), None, true, true);
    assert_eq!(full.descriptor_bindings(&vec![3, 0, 1, 2]), Ok(vec![0, 1, 2, 3]));
    assert_eq!(full.descriptor_bindings(&vec![0, 1, 3]), Ok(vec![0, 1, 3]));
    assert_eq!(full.descriptor_bindings(&vec![4]), Err(PipelineError::MissingBinding(4)));
}

#[test]
fn set_shaders_same_handles_keeps_pipeline() {
    let mut p = MyPipeline::new(info(2, 3, true), Some(0), false, false);
    p.install(9u32);
    p.set_shaders(2, 3);
    assert_eq!(p.get_pipeline(), Some(&9));
    p.set_shaders(2, 4);
    assert_eq!(p.get_pipeline(), None);
    assert_eq!(p.cull_mode(), CullMode::Back);
}

#[test]
fn disabled_pipeline_does_not_reload() {
    let mut shaders = registry();
    let mut p = MyPipeline::<u32>::new(info(2, 3, false), Some(0), false, false);
    let r = p.reload_shaders(&mut shaders, true);
    assert!(!r.rebuilding && r.dispatch.is_empty());
    assert!(!shaders[2].is_compiling());
}

#[test]
fn mirror_twin_drops_object_while_shared_compile_runs() {
    let mut e = engine();
    let mut shaders = registry();
    shaders[2].reload(false);
    shaders[3].reload(false);
    shaders[2].finish_compile(Some(1));
    shaders[3].finish_compile(Some(2));
    e.install(PassKind::Scene, 1, "scene one");
    e.install(PassKind::Mirror, 1, "mirror one");
    e.mark_recorded();

    shaders[3].mark_changed();
    let r = e.maintain(&mut shaders, false);
    assert_eq!(r.dispatch, vec![3]);
    assert!(e.pipelines(PassKind::Scene)[1].get_pipeline().is_none());
    assert!(e.pipelines(PassKind::Mirror)[1].get_pipeline().is_none());
    assert!(e.graph_dirty());
    assert_eq!(e.pending_builds(PassKind::Scene, &shaders), vec![0]);
    assert_eq!(e.pending_builds(PassKind::Mirror, &shaders), vec![0]);

    shaders[3].finish_compile(Some(5));
    assert_eq!(e.pending_builds(PassKind::Scene, &shaders), vec![0, 1]);
    assert_eq!(e.pending_builds(PassKind::Mirror, &shaders), vec![0, 1]);
}

#[test]
fn art_pipeline_pair() {
    let (scene, mirror) = art_pipeline_infos("Gem".to_owned(), "Gem mirror".to_owned(), 4, 5, true, false, false);
    assert_eq!((scene.vs, scene.fs, mirror.vs, mirror.fs), (4, 5, 4, 5));
    assert_eq!((scene.cull_mode, mirror.cull_mode), (CullMode::Back, CullMode::Front));
    assert!(scene.enable_pipeline && mirror.enable_pipeline);
    assert!(!scene.enable_depth_test && !mirror.enable_depth_test);
    assert_eq!(mirror.name, "Gem mirror");
    let (scene, mirror) = art_pipeline_infos("Mirror".to_owned(), "Mirror mirror".to_owned(), 4, 6, true, true, true);
    assert!(scene.enable_pipeline && !mirror.enable_pipeline);
    let (scene, mirror) = art_pipeline_infos("Box".to_owned(), "Box mirror".to_owned(), 4, 6, false, true, false);
    assert!(!scene.enable_pipeline && !mirror.enable_pipeline);
}

#[test]
fn recreate_succeeds_on_valid_extent() {
    let mut e = engine();
    assert_eq!(e.recreate((1, 1), 1), Ok(()));
    assert_eq!(e.image_count(), 1);
}
