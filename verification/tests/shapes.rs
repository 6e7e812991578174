//! Outlines, boxes, chains and the uses of assets.
use scene_editor::animation_sync::RenderNode;
use scene_editor::bounds::{aabb_from_positions, bounds_source, box_of, unit_box, BoundsSource};
use scene_editor::collider_wire::{
    build, cloud_hash, hull_edges, EdgeCache, Face, Hull, HullEdge, Level, Plane, Stroke,
    WireColor, CAP_SEGMENTS, MAX_CLOUDS, SPHERE_SEGMENTS,
};
use scene_editor::ids::{AssetId, NodeId};
use scene_editor::list::List;
use scene_editor::node::{ColliderShape, InstancerDef, LightConfig, NodeKind};
use scene_editor::query_errors::QueryError;
use scene_editor::reachable::{is_mentioned, reachable_assets, Json, Member};
use scene_editor::rig::{ik_chain, RigState};
use scene_editor::table::Table;
use scene_editor::values::{Vec3, F32};
use std::collections::hash_map::DefaultHasher;
use std::hash::Hasher;

fn n(x: f32) -> F32 {
    F32 { bits: x.to_bits() }
}

fn v3(x: f32, y: f32, z: f32) -> Vec3 {
    Vec3 { x: n(x), y: n(y), z: n(z) }
}

fn drawn(shape: ColliderShape, hull: Hull) -> (WireColor, Vec<Stroke>) {
    build(&shape, &vec![HullEdge { a: 4, b: 5 }], &hull)
}

fn no_hull() -> Hull {
    Hull::Degenerate { points: 0 }
}

fn joint(key: u64) -> RenderNode {
    RenderNode {
        transform_key: key,
        material_keys: List::empty(),
        light_key: None,
        camera_key: None,
        model_meshes: List::empty(),
    }
}

/// A row of joints: node `i` has transform `100 + i` and hangs from node `i - 1`.
fn arm(len: u64) -> RigState {
    let mut r = RigState { nodes: Table::new(), parents: Table::new(), owners: Table::new() };
    for i in 0..len {
        r.nodes.insert(i as u128, joint(100 + i));
        r.owners.insert(100 + i as u128, NodeId(i as u128));
        if i > 0 {
            r.parents.insert(100 + i as u128, 99 + i);
        }
    }
    r
}

fn uses(id: &str) -> Json {
    Json::Object(vec![Member {
        key: "texture".to_string(),
        value: Json::Array(vec![Json::Null, Json::Text(id.to_string())]),
    }])
}

#[test]
fn edge_is_drawn_once() {
    let faces = vec![Face { a: 0, b: 1, c: 2 }, Face { a: 2, b: 1, c: 3 }];
    let es: Vec<(u32, u32)> = hull_edges(&faces).iter().map(|e| (e.a, e.b)).collect();
    assert_eq!(es, vec![(0, 1), (0, 2), (1, 2), (1, 3), (2, 3)]);
}

#[test]
fn shapes_are_drawn() {
    let (color, s) = drawn(ColliderShape::Box { half_extents: v3(1.0, 1.0, 1.0) }, no_hull());
    assert_eq!((color, s.len()), (WireColor::Box, 12));
    let (color, s) = drawn(ColliderShape::Sphere { radius: n(1.0) }, no_hull());
    assert_eq!(color, WireColor::Sphere);
    assert_eq!(
        s[1],
        Stroke::Circle { level: Level::Middle, plane: Plane::XZ, segments: SPHERE_SEGMENTS }
    );
    assert_eq!(s.len(), 3);
    let tall = |half_height, radius| (n(half_height), n(radius));
    let (half_height, radius) = tall(1.0, 0.5);
    let (color, s) = drawn(ColliderShape::Capsule { half_height, radius }, no_hull());
    assert_eq!((color, s.len()), (WireColor::Capsule, 10));
    let (color, s) = drawn(ColliderShape::Cylinder { half_height, radius }, no_hull());
    assert_eq!((color, s.len()), (WireColor::Cylinder, 6));
    let (color, s) = drawn(ColliderShape::Cone { half_height, radius }, no_hull());
    assert_eq!((color, s.len()), (WireColor::Cone, 5));
    assert_eq!(
        s[0],
        Stroke::Circle { level: Level::Bottom, plane: Plane::XZ, segments: CAP_SEGMENTS }
    );
    let (color, s) = drawn(ColliderShape::Ellipsoid { half_extents: v3(1.0, 2.0, 3.0) }, no_hull());
    assert_eq!((color, s), (WireColor::Ellipsoid, vec![Stroke::HullEdge { a: 4, b: 5 }]));
    let cloud = || ColliderShape::ConvexHull { points: List::empty() };
    let faces = Hull::Faces(vec![Face { a: 2, b: 1, c: 0 }]);
    let (color, s) = drawn(cloud(), faces);
    assert_eq!(color, WireColor::Hull);
    assert_eq!(s[0], Stroke::HullEdge { a: 0, b: 1 });
    assert_eq!(s.len(), 3);
    let (_, s) = drawn(cloud(), Hull::Degenerate { points: 2 });
    assert_eq!(s, vec![Stroke::Cross { point: 0 }, Stroke::Cross { point: 1 }]);
}

#[test]
fn clouds_are_told_apart() {
    let a = List::from_vec(vec![v3(1.0, 2.0, 3.0)]);
    let mut h = DefaultHasher::new();
    let mut bytes: Vec<u8> = Vec::new();
    for x in [1.0f32, 2.0, 3.0] {
        bytes.extend_from_slice(&x.to_bits().to_le_bytes());
    }
    h.write(&bytes);
    assert_eq!(cloud_hash(&a), h.finish());
    assert_ne!(cloud_hash(&a), cloud_hash(&List::from_vec(vec![v3(1.0, 2.0, 4.0)])));
}

#[test]
fn cache_stays_small() {
    let mut c = EdgeCache::new();
    let edges = || List::from_vec(vec![HullEdge { a: 0, b: 1 }]);
    for i in 0..=MAX_CLOUDS as u64 {
        assert!(c.lookup(i).is_none());
        c.keep(i, edges());
    }
    assert!(c.lookup(3).is_none(), "it had grown too large");
    c.keep(3, edges());
    assert_eq!(c.lookup(3).unwrap().len(), 1);
}

#[test]
fn points_lie_in_their_box() {
    assert!(aabb_from_positions(&List::empty()).is_none());
    let b = aabb_from_positions(&List::from_vec(vec![
        v3(1.0, -2.0, 0.0),
        v3(-1.0, 5.0, f32::NAN),
        v3(0.0, 0.0, 3.0),
    ]))
    .unwrap();
    assert_eq!(b.min, v3(-1.0, -2.0, 0.0));
    assert_eq!(b.max, v3(1.0, 5.0, 3.0));
}

#[test]
fn box_of_nothing_is_one_unit() {
    assert_eq!(box_of(None), unit_box());
    assert_eq!(box_of(Some(&List::empty())), unit_box());
    assert_eq!(unit_box().min, v3(-0.5, -0.5, -0.5));
    assert_eq!(box_of(Some(&List::from_vec(vec![v3(1.0, 1.0, 1.0)]))).max, v3(1.0, 1.0, 1.0));
}

#[test]
fn boxes_come_from_the_kind() {
    let light = NodeKind::Light(LightConfig::Directional { color: Vec3::one(), intensity: n(1.0) });
    assert_eq!(bounds_source(&light), BoundsSource::Unit);
    let box_shape = ColliderShape::Box { half_extents: Vec3::one() };
    assert_eq!(bounds_source(&NodeKind::Collider(box_shape)), BoundsSource::Shape);
    let copies = NodeKind::Instancer(InstancerDef {
        mesh: AssetId(4),
        transforms: List::empty(),
        per_instance_colors: List::empty(),
    });
    assert_eq!(bounds_source(&copies), BoundsSource::Copies(AssetId(4)));
}

#[test]
fn chain_is_two_bones_above_its_end() {
    let rig = arm(5);
    let c = ik_chain(&rig, NodeId(4), None).unwrap();
    assert_eq!((c.root_node, c.mid_node), (NodeId(2), NodeId(3)));
    assert_eq!((c.root_key, c.mid_key, c.end_key), (102, 103, 104));
    let c = ik_chain(&rig, NodeId(4), Some(NodeId(0))).unwrap();
    assert_eq!((c.root_node, c.mid_node), (NodeId(0), NodeId(1)));
    assert_eq!(ik_chain(&rig, NodeId(1), None), Err(QueryError::NoChain));
    assert_eq!(ik_chain(&rig, NodeId(9), None), Err(QueryError::EndNotMade(NodeId(9))));
    assert_eq!(
        ik_chain(&rig, NodeId(4), Some(NodeId(8))).unwrap_err().message(),
        "root_node 00000000-0000-0000-0000-000000000008 not materialized"
    );
    assert_eq!(ik_chain(&rig, NodeId(2), Some(NodeId(4))), Err(QueryError::NoChain));
}

#[test]
fn uses_are_followed() {
    let a = "00000000-0000-0000-0000-00000000000a";
    let b = "00000000-0000-0000-0000-00000000000b";
    assert!(is_mentioned(&uses(a), 0xa));
    assert!(!is_mentioned(&uses(a), 0xb));
    assert!(is_mentioned(
        &Json::Object(vec![Member { key: b.to_string(), value: Json::Bool(true) }]),
        0xb
    ));
    let mut docs: Table<Json> = Table::new();
    docs.insert(0xa, uses(b));
    docs.insert(0xb, Json::Number("1".to_string()));
    docs.insert(0xc, uses(a));
    let mut found = reachable_assets(&vec![uses(a)], &docs);
    found.sort();
    assert_eq!(found, vec![0xa, 0xb]);
    assert!(reachable_assets(&vec![uses("not an id")], &docs).is_empty());
}
