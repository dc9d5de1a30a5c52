use shaderpixel::order::dist_key;
use shaderpixel::scene::{apply_portal, nearest_interactive, SceneObject};

fn obj(dist: f32, enable: bool, has_options: bool) -> SceneObject {
    SceneObject {
        dist_key: dist_key(dist.to_bits()),
        enable_pipeline: enable,
        has_options,
        inside_portal: false,
        shader_vert: 0,
        shader_frag: 0,
    }
}

#[test]
fn nearest_interactive_picks_closest_within_radius() {
    let objs = vec![obj(2.0, true, true), obj(1.0, true, true), obj(0.5, false, true), obj(0.1, true, false)];
    assert_eq!(nearest_interactive(&objs), Some(1));
}

#[test]
fn nearest_interactive_radius_is_inclusive() {
    assert_eq!(nearest_interactive(&vec![obj(2.25, true, true)]), Some(0));
    assert_eq!(nearest_interactive(&vec![obj(2.26, true, true)]), None);
    assert_eq!(nearest_interactive(&Vec::new()), None);
}

#[test]
fn nearest_interactive_ties_pick_first() {
    let objs = vec![obj(3.0, true, true), obj(1.5, true, true), obj(1.5, true, true)];
    assert_eq!(nearest_interactive(&objs), Some(1));
}

#[test]
fn portal_inside_hides_farther_objects() {
    let mut objs = vec![obj(1.0, true, false), obj(4.0, true, false), obj(9.0, true, false), obj(0.0, false, false)];
    objs[1].inside_portal = true;
    objs[1].shader_vert = 7;
    objs[1].shader_frag = 8;
    assert_eq!(apply_portal(&mut objs, Some(3)), Some(1));
    let enabled: Vec<bool> = objs.iter().map(|o| o.enable_pipeline).collect();
    assert_eq!(enabled, [false, false, true, true]);
    assert_eq!((objs[3].shader_vert, objs[3].shader_frag), (7, 8));
}

#[test]
fn portal_outside_shows_all_but_box() {
    let mut objs = vec![obj(1.0, false, false), obj(4.0, false, false), obj(0.0, true, false)];
    assert_eq!(apply_portal(&mut objs, Some(2)), None);
    let enabled: Vec<bool> = objs.iter().map(|o| o.enable_pipeline).collect();
    assert_eq!(enabled, [true, true, false]);
    let mut objs = vec![obj(1.0, false, false)];
    objs[0].inside_portal = true;
    assert_eq!(apply_portal(&mut objs, None), None);
    assert!(objs[0].enable_pipeline);
}
