use engine_core::algebra::{Mat4, Quat, Vec2, Vec3};
use engine_core::assets::{Mesh, SimpleVertex3D};
use engine_core::components::{ComponentData, ComponentKind};
use engine_core::controllers::{FreecamBindings, FreecamState, RotateState, PITCH_LIMIT_DEG};
use engine_core::fx::{fx_add, fx_div, fx_mul, fx_neg, FX_ONE};
use engine_core::mesh_renderer::MeshRenderer;
use engine_core::object::GameObjectId;
use engine_core::input::InputManager;
use engine_core::physics::{Body, PhysicsSim};
use engine_core::transform::Transform;
use engine_core::scene_loader::SceneLoader;
use engine_core::world::World;

fn fxv(x: i64, y: i64, z: i64) -> Vec3 {
    Vec3 { x: x * FX_ONE, y: y * FX_ONE, z: z * FX_ONE }
}

#[test]
fn fx_exact_products() {
    assert_eq!(fx_mul(3 * FX_ONE, 2 * FX_ONE), 6 * FX_ONE);
    assert_eq!(fx_mul(-3 * FX_ONE, 2 * FX_ONE), -6 * FX_ONE);
    assert_eq!(fx_mul(FX_ONE / 2, FX_ONE / 2), FX_ONE / 4);
    assert_eq!(fx_div(6 * FX_ONE, 3 * FX_ONE), 2 * FX_ONE);
}

#[test]
fn fx_saturates_and_totalizes() {
    assert_eq!(fx_add(i64::MAX, 1), i64::MAX);
    assert_eq!(fx_add(i64::MIN, -1), i64::MIN);
    assert_eq!(fx_neg(i64::MIN), i64::MAX);
    assert_eq!(fx_div(FX_ONE, 0), 0);
}

#[test]
fn identifier_liveness_after_destroy() {
    let mut w = World::new();
    let parent = w.new_object("parent");
    let child = w.new_object("child");
    assert!(w.add_child_to(parent, child));
    assert!(child.is_alive(&w));
    assert!(w.destroy(child));
    assert!(!child.is_alive(&w));
    assert!(w.get_object(&child).is_none());
    let p = w.get_object(&parent).unwrap();
    assert!(p.children.is_empty());
    // the identifier is never reused
    let next = w.new_object("later");
    assert_ne!(next, child);
}

#[test]
fn destroy_is_a_checked_no_op_on_stale_handles() {
    let mut w = World::new();
    let a = w.new_object("a");
    assert!(w.destroy(a));
    assert!(!w.destroy(a));
    assert!(!w.destroy(GameObjectId(99)));
}

#[test]
fn transform_composition_order_exact() {
    let mut t = Transform::new();
    t.set_local_position(fxv(1, 2, 3));
    // quarter turn about z, components exactly representable
    let q = Quat { w: 46341, x: 0, y: 0, z: 46341 };
    t.set_local_rotation(q);
    t.set_nonuniform_local_scale(fxv(2, 2, 2));
    let expected = Mat4::translation(&fxv(1, 2, 3)).mul(&Mat4::rotation(&q)).mul(
        &Mat4::scaling(&fxv(2, 2, 2)),
    );
    assert_eq!(t.full_matrix(), expected);
}

#[test]
fn transform_composition_position_first_toggled() {
    let mut t = Transform::new();
    t.set_compound_pos_first(false);
    t.set_local_position(fxv(1, 0, 0));
    let q = Quat { w: 46341, x: 0, y: 0, z: 46341 };
    t.set_local_rotation(q);
    t.set_nonuniform_local_scale(fxv(1, 3, 1));
    let expected = Mat4::rotation(&q).mul(&Mat4::translation(&fxv(1, 0, 0))).mul(
        &Mat4::scaling(&fxv(1, 3, 1)),
    );
    assert_eq!(t.full_matrix(), expected);
}

#[test]
fn transform_invert_position_negates_translation() {
    let mut t = Transform::new();
    t.set_local_position(fxv(4, 5, 6));
    t.set_invert_position(true);
    let expected = Mat4::translation(&fxv(-4, -5, -6));
    assert_eq!(t.full_matrix(), expected);
}

#[test]
fn world_transform_round_trip_after_reparent() {
    let mut w = World::new();
    let parent = w.new_object("parent");
    assert!(w.set_local_position(parent, fxv(10, 0, 0)));
    let child = w.new_object("child");
    assert!(w.add_child_to(parent, child));
    let target = fxv(5, 7, 0);
    assert!(w.set_position(child, target));
    // identity rotation and unit scale in the chain: exact round trip
    assert_eq!(w.position(child), target);
}

#[test]
fn global_matrix_composes_parent_chain() {
    let mut w = World::new();
    let parent = w.new_object("parent");
    assert!(w.set_local_position(parent, fxv(1, 0, 0)));
    let child = w.new_object("child");
    assert!(w.add_child_to(parent, child));
    assert!(w.set_local_position(child, fxv(0, 2, 0)));
    assert_eq!(w.position(child), fxv(1, 2, 0));
    let pm = w.get_global_transform_matrix_ext(child, false);
    assert_eq!(pm.translation_of(), fxv(1, 0, 0));
}

#[test]
fn fixed_timestep_accumulator_remainder() {
    let mut w = World::new();
    let ts = w.physics.timestep_nanos;
    // two whole steps plus five nanoseconds of backlog
    w.update(2 * ts + 5);
    assert_eq!(w.physics.accumulator_nanos, 5);
    // one more whole step: the remainder carries over
    w.update(2 * ts + 5 + ts + 1);
    assert_eq!(w.physics.accumulator_nanos, 6);
}

#[test]
fn fixed_timestep_step_count_observed_by_trace() {
    let mut w = World::new();
    let e = w.new_object("probe");
    assert!(w.add_component(e, ComponentKind::Trace));
    let ts = w.physics.timestep_nanos;
    w.update(3 * ts);
    let o = w.get_object(&e).unwrap();
    match &o.components[0].data {
        ComponentData::Trace(t) => {
            assert_eq!(t.log, vec![1u8, 2, 3, 3, 3]);
        },
        _ => panic!("expected the trace component"),
    }
}

#[test]
fn fixed_timestep_cap_drops_backlog() {
    let mut w = World::new();
    let e = w.new_object("probe");
    assert!(w.add_component(e, ComponentKind::Trace));
    let ts = w.physics.timestep_nanos;
    let cap = w.physics.max_steps_per_update as u64;
    // owe far more steps than the cap allows
    w.update((cap + 20) * ts + 7);
    let o = w.get_object(&e).unwrap();
    match &o.components[0].data {
        ComponentData::Trace(t) => {
            let posts = t.log.iter().filter(|e| **e == 3).count() as u64;
            assert_eq!(posts, cap);
        },
        _ => panic!("expected the trace component"),
    }
    // the un-simulated whole steps are dropped, only the remainder stays
    assert_eq!(w.physics.accumulator_nanos, 7);
}

#[test]
fn lifecycle_ordering_one_tick() {
    let mut w = World::new();
    let e = w.new_object("probe");
    assert!(w.add_component(e, ComponentKind::Trace));
    let ts = w.physics.timestep_nanos;
    w.update(ts);
    let o = w.get_object(&e).unwrap();
    match &o.components[0].data {
        ComponentData::Trace(t) => {
            // update, late-update, then one post-update per physics step
            assert_eq!(t.log, vec![1u8, 2, 3]);
        },
        _ => panic!("expected the trace component"),
    }
    // a second tick with no elapsed time: update and late only
    w.update(ts);
    let o = w.get_object(&e).unwrap();
    match &o.components[0].data {
        ComponentData::Trace(t) => {
            assert_eq!(t.log, vec![1u8, 2, 3, 1, 2]);
        },
        _ => panic!("expected the trace component"),
    }
}

#[test]
fn capability_query_returns_first_match_or_absent() {
    let mut w = World::new();
    let e = w.new_object("entity");
    assert!(w.add_component(e, ComponentKind::Camera));
    assert!(w.add_component(e, ComponentKind::Gravity));
    let o = w.get_object(&e).unwrap();
    let cam = o.get_component(ComponentKind::Camera).unwrap();
    assert_eq!(cam.owner, e);
    match &cam.data {
        ComponentData::Camera(c) => {
            assert_eq!((c.aspect_w, c.aspect_h), (800, 600));
        },
        _ => panic!("expected the camera component"),
    }
    assert!(o.get_component(ComponentKind::Gravity).is_some());
    assert!(o.get_component(ComponentKind::RigidBody).is_none());
    assert!(o.get_component(ComponentKind::Trace).is_none());
}

#[test]
fn camera_resize_updates_aspect_only() {
    let mut w = World::new();
    let cam = w.new_camera();
    assert_eq!(w.active_camera, Some(cam));
    let before = w.get_object(&cam).unwrap().transform;
    assert!(w.camera_resize(cam, 1024, 768));
    let o = w.get_object(&cam).unwrap();
    match &o.components[0].data {
        ComponentData::Camera(c) => {
            assert_eq!((c.aspect_w, c.aspect_h), (1024, 768));
            assert_eq!(c.fov_deg, 3932160);
        },
        _ => panic!("expected the camera component"),
    }
    // position and rotation untouched
    assert_eq!(o.transform, before);
    // resizing an entity without a camera reports absence
    let plain = w.new_object("plain");
    assert!(!w.camera_resize(plain, 640, 480));
}

#[test]
fn camera_entity_flags() {
    let mut w = World::new();
    let cam = w.new_camera();
    let o = w.get_object(&cam).unwrap();
    assert!(o.transform.invert_position);
    assert!(!o.transform.compound_pos_first);
    assert_eq!(o.name, "Camera");
}

#[test]
fn destroying_active_camera_clears_reference() {
    let mut w = World::new();
    let cam = w.new_camera();
    assert_eq!(w.active_camera, Some(cam));
    assert!(w.destroy(cam));
    assert_eq!(w.active_camera, None);
}

#[test]
fn parent_child_detach_keeps_sibling_order() {
    let mut w = World::new();
    let root = w.new_object("root");
    let a = w.new_object("a");
    let b = w.new_object("b");
    let c = w.new_object("c");
    assert!(w.add_child_to(root, a));
    assert!(w.add_child_to(root, b));
    assert!(w.add_child_to(root, c));
    assert_eq!(w.get_object(&root).unwrap().children, vec![a, b, c]);
    assert!(w.destroy(b));
    assert_eq!(w.get_object(&root).unwrap().children, vec![a, c]);
}

#[test]
fn reparenting_detaches_from_previous_parent() {
    let mut w = World::new();
    let p1 = w.new_object("p1");
    let p2 = w.new_object("p2");
    let kid = w.new_object("kid");
    assert!(w.add_child_to(p1, kid));
    assert!(w.add_child_to(p2, kid));
    assert!(w.get_object(&p1).unwrap().children.is_empty());
    assert_eq!(w.get_object(&p2).unwrap().children, vec![kid]);
    assert_eq!(w.get_object(&kid).unwrap().parent, Some(p2));
    // attaching an entity to itself is a checked no-op
    assert!(!w.add_child_to(kid, kid));
}

#[test]
fn add_child_registers_top_level() {
    let mut w = World::new();
    let p = w.new_object("p");
    let kid = w.new_object("kid");
    assert!(w.add_child_to(p, kid));
    assert!(w.add_child(kid));
    assert_eq!(w.get_object(&kid).unwrap().parent, None);
    assert!(w.get_object(&p).unwrap().children.is_empty());
    assert_eq!(w.children, vec![kid]);
}

#[test]
fn find_object_by_name_lowest_identifier() {
    let mut w = World::new();
    let a = w.new_object("thing");
    let _b = w.new_object("thing");
    assert_eq!(w.find_object_by_name("thing"), Some(a));
    assert_eq!(w.find_object_by_name("absent"), None);
    w.destroy(a);
    assert_eq!(w.find_object_by_name("thing"), Some(_b));
}

#[test]
fn gravity_integrates_velocity_exactly() {
    let mut w = World::new();
    let e = w.new_object("faller");
    assert!(w.add_component(e, ComponentKind::Gravity));
    // exactly one second elapses
    w.update(1_000_000_000);
    let o = w.get_object(&e).unwrap();
    match &o.components[0].data {
        ComponentData::Gravity(g) => {
            assert_eq!(g.velocity, -642689);
        },
        _ => panic!("expected the gravity component"),
    }
    assert_eq!(o.transform.pos.y, -642689);
}

#[test]
fn rigid_body_pulls_pose_back_into_transform() {
    let mut w = World::new();
    let e = w.new_object("ball");
    assert!(w.set_local_position(e, fxv(0, 10, 0)));
    assert!(w.add_component(e, ComponentKind::RigidBody));
    let handle = match &w.get_object(&e).unwrap().components[0].data {
        ComponentData::RigidBody(r) => r.body,
        _ => panic!("expected the rigid-body component"),
    };
    let body = w.physics.get_body(handle).unwrap();
    assert_eq!(body.translation, fxv(0, 10, 0));
    assert!(body.dynamic);
    w.update(1_000_000_000);
    let body_after = w.physics.get_body(handle).unwrap();
    // gravity pulled the body down, and the post pass copied the pose back
    assert!(body_after.translation.y < 10 * FX_ONE);
    let o = w.get_object(&e).unwrap();
    assert_eq!(o.transform.pos, body_after.translation);
}

#[test]
fn mesh_fallback_material_ranges() {
    let m: Mesh<u32> = Mesh::new(vec![1, 2, 3, 4], None, None);
    assert_eq!(m.material_ranges, vec![(0usize, 0u32, 4u32)]);
    let with_indices: Mesh<u32> = Mesh::new(vec![1, 2, 3], Some(vec![0, 1, 2, 0]), None);
    assert_eq!(with_indices.material_ranges, vec![(0usize, 0u32, 4u32)]);
    let explicit: Mesh<u32> = Mesh::new(vec![1], None, Some(vec![(7, 0, 1)]));
    assert_eq!(explicit.material_ranges, vec![(7usize, 0u32, 1u32)]);
}

#[test]
fn mesh_renderer_carries_its_mesh() {
    let r = MeshRenderer::new(3);
    assert_eq!(r.mesh(), 3);
    let mut w = World::new();
    let e = w.new_object("drawn");
    assert!(w.set_drawable(e, Some(r)));
    assert_eq!(w.get_object(&e).unwrap().drawable, Some(r));
}

#[test]
fn scene_loader_gathers_in_order_skipping_bad_indices() {
    let source: Vec<u32> = vec![10, 20, 30];
    let indices: Vec<u32> = vec![2, 9, 0, 1, 7];
    let gathered = SceneLoader::extract_data(&indices, &source, |v: u32| v + 1);
    assert_eq!(gathered, vec![31, 11, 21]);
    let mut stream: Vec<u32> = vec![5];
    SceneLoader::extend_data(&mut stream, &indices, &source, |v: u32| v * 2);
    assert_eq!(stream, vec![5, 60, 20, 40]);
}

#[test]
fn scene_loader_normalizes_stream_lengths() {
    let scalar: Vec<u8> = vec![0, 0, 0];
    let mut x: Vec<u32> = vec![1, 2, 3, 4];
    let mut y: Vec<u32> = vec![7];
    let mut z: Vec<u32> = vec![1, 2, 3];
    let mut a: Vec<u32> = Vec::new();
    SceneLoader::normalize_data(&scalar, &mut x, 0, &mut y, 9, &mut z, 0, &mut a, 5);
    assert_eq!(x, vec![1, 2, 3]);
    assert_eq!(y, vec![7, 9, 9]);
    assert_eq!(z, vec![1, 2, 3]);
    assert_eq!(a, vec![5, 5, 5]);
}

#[test]
fn scene_loader_flattens_triangles_only() {
    let faces: Vec<Vec<u32>> = vec![
        vec![0, 1, 2],
        vec![3, 4],
        vec![5, 6, 7],
        vec![8],
        vec![],
    ];
    let flat = SceneLoader::collect_triangle_indices(&faces);
    assert_eq!(flat, vec![0, 1, 2, 5, 6, 7]);
}

#[test]
fn world_rotation_and_scale_setters() {
    let mut w = World::new();
    let e = w.new_object("posed");
    let q = Quat { w: 46341, x: 0, y: 0, z: 46341 };
    assert!(w.set_rotation(e, q));
    // no parents: the world rotation is the local rotation
    assert_eq!(w.rotation(e), q);
    assert!(w.translate(e, fxv(1, 1, 0)));
    assert!(w.translate(e, fxv(0, 2, 0)));
    assert_eq!(w.get_object(&e).unwrap().transform.pos, fxv(1, 3, 0));
    let f = w.new_object("scaled");
    assert!(w.set_uniform_scale(f, 3 * FX_ONE));
    assert_eq!(w.scale(f), fxv(3, 3, 3));
    // stale handles are recoverable no-ops
    assert!(w.destroy(f));
    assert!(!w.set_rotation(f, q));
    assert!(!w.translate(f, fxv(1, 0, 0)));
}

#[test]
fn simple_vertex_upgrade_zero_fills() {
    let v = SimpleVertex3D { position: fxv(1, 2, 3), normal: fxv(0, 1, 0) };
    let full = v.upgrade();
    assert_eq!(full.position, fxv(1, 2, 3));
    assert_eq!(full.normal, fxv(0, 1, 0));
    assert_eq!((full.tex_coord.x, full.tex_coord.y), (0, 0));
    assert_eq!(full.tangent, fxv(0, 0, 0));
}

#[test]
fn physics_body_table_never_reuses_handles() {
    let mut sim = PhysicsSim::new();
    let b = Body {
        translation: fxv(0, 1, 0),
        rotation: Quat { w: FX_ONE, x: 0, y: 0, z: 0 },
        linvel: fxv(0, 0, 0),
        dynamic: false,
    };
    let h0 = sim.insert_body(b);
    let h1 = sim.insert_body(b);
    assert_eq!((h0, h1), (0, 1));
    assert!(sim.remove_body(h0));
    assert!(sim.get_body(h0).is_none());
    assert!(!sim.remove_body(h0));
    let h2 = sim.insert_body(b);
    assert_eq!(h2, 2);
    // a static body does not move under stepping
    sim.step();
    assert_eq!(sim.get_body(h1).unwrap().translation, fxv(0, 1, 0));
}

#[test]
fn world_rotation_round_trip_with_rotated_parent() {
    let mut w = World::new();
    let parent = w.new_object("parent");
    // quarter turn about z on the parent
    assert!(w.set_local_rotation(parent, Quat { w: 46341, x: 0, y: 0, z: 46341 }));
    let child = w.new_object("child");
    assert!(w.add_child_to(parent, child));
    // quarter turn about x as the child's world rotation
    let target = Quat { w: 46341, x: 46341, y: 0, z: 0 };
    assert!(w.set_rotation(child, target));
    let got = w.rotation(child);
    // the round trip holds within one fixed-point ulp per component
    assert!((got.w - target.w).abs() <= 1, "w: {} vs {}", got.w, target.w);
    assert!((got.x - target.x).abs() <= 1, "x: {} vs {}", got.x, target.x);
    assert!((got.y - target.y).abs() <= 1, "y: {} vs {}", got.y, target.y);
    assert!((got.z - target.z).abs() <= 1, "z: {} vs {}", got.z, target.z);
}

#[test]
fn freecam_direction_sums_held_keys() {
    let bindings = FreecamBindings {
        forward: 17,
        back: 31,
        left: 30,
        right: 32,
        ascend: 57,
        descend: 29,
        boost: 42,
    };
    let freecam = FreecamState::new();
    let mut input = InputManager::new();
    let t = Transform::new();
    input.process_key_event(bindings.forward, true);
    input.process_key_event(bindings.right, true);
    let dir = freecam.direction(&input, &t, &bindings);
    // identity facing: forward is negative z, right is positive x
    assert_eq!(dir, Vec3 { x: FX_ONE, y: 0, z: -FX_ONE });
    // releasing a key removes its contribution
    input.process_key_event(bindings.right, false);
    input.process_key_event(bindings.ascend, true);
    let dir2 = freecam.direction(&input, &t, &bindings);
    assert_eq!(dir2, Vec3 { x: 0, y: FX_ONE, z: -FX_ONE });
    // the boost key multiplies the speed tenfold
    assert_eq!(freecam.speed(&input, &bindings), freecam.move_speed);
    input.process_key_event(bindings.boost, true);
    assert_eq!(freecam.speed(&input, &bindings), freecam.move_speed * 10);
}

#[test]
fn freecam_look_clamps_pitch() {
    let mut freecam = FreecamState::new();
    // an enormous upward sweep over one second pegs the pitch at the limit
    freecam.look(Vec2 { x: 0, y: 100_000 * FX_ONE }, FX_ONE);
    assert_eq!(freecam.pitch, PITCH_LIMIT_DEG);
    freecam.look(Vec2 { x: 0, y: -200_000 * FX_ONE }, FX_ONE);
    assert_eq!(freecam.pitch, -PITCH_LIMIT_DEG);
    // yaw accumulates unclamped: 10 cursor units at a tenth of a degree each
    let mut level = FreecamState::new();
    level.look(Vec2 { x: 10 * FX_ONE, y: 0 }, FX_ONE);
    assert_eq!(level.yaw, 65530);
}

#[test]
fn rotate_step_accumulates_spin_and_phase() {
    let mut spinner = RotateState::new(200 * FX_ONE);
    let phase = spinner.step(FX_ONE);
    // the phase is the seed divided by one hundred
    assert_eq!(phase, 2 * FX_ONE);
    // fifty degrees per second in radians, accumulated over one second
    assert_eq!(spinner.y_rot, 57150);
    assert_eq!(spinner.iteration, 201 * FX_ONE);
}
