use shaderpixel::frame::{get_pipeline_order, FrameEngine};
use shaderpixel::order::{dist_key, draw_order};
use shaderpixel::pipeline::{MyPipeline, MyPipelineCreateInfo};

fn key(d: f32) -> i32 {
    dist_key(d.to_bits())
}

fn pipelines(n_objects: usize) -> Vec<MyPipeline<u32>> {
    let mut v = vec![MyPipeline::new(MyPipelineCreateInfo::default(), None, false, false)];
    for i in 0..n_objects {
        v.push(MyPipeline::new(MyPipelineCreateInfo::default(), Some(i), false, false));
    }
    v
}

#[test]
fn dist_key_follows_float_order() {
    let values = [f32::MIN, -2.5, -1.0, -0.0, 0.0, 1e-30, 1.0, 2.25, 10.0, f32::MAX];
    for w in values.windows(2) {
        assert!(key(w[0]) < key(w[1]), "{} !< {}", w[0], w[1]);
    }
    assert_eq!(key(0.0), 0);
    assert_eq!(key(-0.0), -1);
    assert_eq!(key(2.25), 0x4010_0000);
}

#[test]
fn draw_order_environment_first_then_far_to_near() {
    let keys = vec![Some(key(1.0)), None, Some(key(10.0)), Some(key(5.0))];
    assert_eq!(draw_order(&keys), vec![1, 2, 3, 0]);
}

#[test]
fn draw_order_ties_keep_registration_order() {
    let keys = vec![Some(key(3.0)), None, Some(key(3.0)), None, Some(key(3.0))];
    let order = draw_order(&keys);
    assert_eq!(order, vec![1, 3, 0, 2, 4]);
    assert_eq!(draw_order(&keys), order);
}

#[test]
fn draw_order_empty() {
    assert!(draw_order(&Vec::new()).is_empty());
}

#[test]
fn draw_order_forced_nearest_and_farthest() {
    let keys = vec![Some(key(-1.0)), Some(key(f32::MAX)), Some(key(4.0))];
    assert_eq!(draw_order(&keys), vec![1, 2, 0]);
}

#[test]
fn end_to_end_reorder_after_camera_move() {
    let scene = pipelines(3);
    let mirror = pipelines(3);
    let mut keys = vec![key(1.0), key(5.0), key(10.0)];
    assert_eq!(get_pipeline_order(&scene, &keys), vec![0, 3, 2, 1]);
    let mut engine = FrameEngine::<u32, u32>::new(scene, mirror, 2, (800, 600), &keys);
    assert_eq!(engine.order(), &vec![0, 3, 2, 1]);
    engine.mark_recorded();
    assert!(!engine.refresh_order(&keys));
    assert!(!engine.graph_dirty());

    keys = vec![key(10.0), key(1.0), key(5.0)];
    assert!(engine.refresh_order(&keys));
    assert_eq!(engine.order(), &vec![0, 1, 3, 2]);
    assert!(engine.graph_dirty());
}
