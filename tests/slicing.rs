use csgrs::csg::CSG;
use csgrs::vertex::Vertex;
use nalgebra::{Point3, Vector3};
use toolpath::{
    AdditiveConfig, AdditiveToolpathGenerator, ConfigError, Solid, SubtractiveConfig,
    SubtractiveToolpathGenerator, ToolpathGenerator, ToolpathSegment, cross_section_loops,
    gather_layers, lift_loops, slice_at, sweep,
};

fn cube() -> Solid {
    CSG::cube(10.0, 10.0, 10.0, None)
}

fn vertex(x: f64, y: f64) -> Vertex {
    Vertex::new(Point3::new(x, y, 0.0), Vector3::z())
}

fn corners(seg: &ToolpathSegment) -> Vec<(i64, i64)> {
    let mut cs: Vec<(i64, i64)> = seg
        .vertices
        .iter()
        .map(|v| (v.pos.x.round() as i64, v.pos.y.round() as i64))
        .collect();
    cs.sort();
    cs.dedup();
    cs
}

fn is_square_section(seg: &ToolpathSegment) -> bool {
    let on_corner = seg.vertices.iter().all(|v| {
        let x = v.pos.x;
        let y = v.pos.y;
        ((x - 0.0).abs() < 1e-9 || (x - 10.0).abs() < 1e-9)
            && ((y - 0.0).abs() < 1e-9 || (y - 10.0).abs() < 1e-9)
    });
    on_corner && corners(seg) == vec![(0, 0), (0, 10), (10, 0), (10, 10)]
}

#[test]
fn short_loops_are_dropped_and_the_rest_lifted() {
    let loops = vec![
        vec![vertex(0.0, 0.0), vertex(1.0, 0.0)],
        vec![vertex(0.0, 0.0), vertex(1.0, 0.0), vertex(0.0, 1.0)],
        vec![],
        vec![vertex(0.0, 0.0), vertex(2.0, 0.0), vertex(2.0, 2.0), vertex(0.0, 2.0)],
    ];
    let segs = lift_loops(loops, 7);
    assert_eq!(segs.len(), 2);
    assert_eq!(segs[0].vertices.len(), 3);
    assert_eq!(segs[1].vertices.len(), 4);
    assert!(segs.iter().all(|s| s.z == 7));
    assert_eq!(segs[1].vertices[2].pos.x, 2.0);
    assert_eq!(segs[1].vertices[2].pos.y, 2.0);
}

#[test]
fn no_loops_give_no_segments() {
    assert!(lift_loops(Vec::new(), 3).is_empty());
}

#[test]
fn cube_interior_slice_is_its_square() {
    for z in 1..10 {
        let segs = slice_at(&cube(), z);
        assert_eq!(segs.len(), 1, "height {}", z);
        assert_eq!(segs[0].z, z);
        assert!(segs[0].vertices.len() >= 4);
        assert!(is_square_section(&segs[0]), "height {}", z);
    }
}

#[test]
fn cube_slices_beyond_its_extent_are_empty() {
    for z in [-5, -1, 11, 20] {
        assert!(slice_at(&cube(), z).is_empty(), "height {}", z);
    }
}

#[test]
fn cube_boundary_slices_keep_their_height() {
    for z in [0, 10] {
        let segs = slice_at(&cube(), z);
        assert!(segs.len() <= 2, "height {}", z);
        for s in &segs {
            assert_eq!(s.z, z);
            assert!(s.vertices.len() >= 3);
        }
    }
}

#[test]
fn slicing_a_moved_model_keeps_the_requested_height() {
    let moved: Solid = cube().translate(Vector3::new(3.0, -4.0, 25.0));
    let segs = slice_at(&moved, 30);
    assert_eq!(segs.len(), 1);
    assert_eq!(segs[0].z, 30);
    for v in &segs[0].vertices {
        assert!((v.pos.x - 3.0).abs() < 1e-9 || (v.pos.x - 13.0).abs() < 1e-9);
        assert!((v.pos.y + 4.0).abs() < 1e-9 || (v.pos.y - 6.0).abs() < 1e-9);
    }
}

#[test]
fn slicing_twice_gives_the_same_points() {
    let a = slice_at(&cube(), 4);
    let b = slice_at(&cube(), 4);
    assert_eq!(a.len(), b.len());
    for (s, t) in a.iter().zip(b.iter()) {
        assert_eq!(s.z, t.z);
        assert_eq!(s.vertices.len(), t.vertices.len());
        for (v, w) in s.vertices.iter().zip(t.vertices.iter()) {
            assert_eq!(v.pos, w.pos);
        }
    }
}

#[test]
fn sweep_keeps_the_order_of_heights() {
    let set = sweep(&cube(), &vec![7, 2, 50, 5]);
    let zs: Vec<i64> = set.segments.iter().map(|s| s.z).collect();
    assert_eq!(zs, vec![7, 2, 5]);
}

#[test]
fn additive_cube_unit_layers() {
    let cfg = AdditiveConfig { layer_height: 1, min_z: 0, max_z: 10 };
    let set = AdditiveToolpathGenerator.generate_toolpaths(&cube(), &cfg).unwrap();
    for z in 1..10 {
        let at: Vec<&ToolpathSegment> = set.segments.iter().filter(|s| s.z == z).collect();
        assert_eq!(at.len(), 1, "height {}", z);
        assert!(is_square_section(at[0]));
    }
    assert!(set.segments.iter().all(|s| (0..=10).contains(&s.z) && s.vertices.len() >= 3));
    assert!(set.segments.windows(2).all(|w| w[0].z <= w[1].z));
}

#[test]
fn subtractive_cube_step_two() {
    let cfg = SubtractiveConfig { step_down: 2, min_z: 0, max_z: 10 };
    let set = SubtractiveToolpathGenerator.generate_toolpaths(&cube(), &cfg).unwrap();
    for z in [8, 6, 4, 2] {
        let at: Vec<&ToolpathSegment> = set.segments.iter().filter(|s| s.z == z).collect();
        assert_eq!(at.len(), 1, "height {}", z);
        assert!(is_square_section(at[0]));
    }
    assert!(set.segments.iter().all(|s| s.z % 2 == 0 && (0..=10).contains(&s.z)));
    assert!(set.segments.iter().all(|s| s.vertices.len() >= 3));
    assert!(set.segments.windows(2).all(|w| w[0].z >= w[1].z));
}

#[test]
fn generators_refuse_non_positive_steps() {
    let a = AdditiveConfig { layer_height: 0, min_z: 0, max_z: 10 };
    assert_eq!(
        AdditiveToolpathGenerator.generate_toolpaths(&cube(), &a).err(),
        Some(ConfigError::NonPositiveLayerHeight)
    );
    let s = SubtractiveConfig { step_down: -1, min_z: 0, max_z: 10 };
    assert_eq!(
        SubtractiveToolpathGenerator.generate_toolpaths(&cube(), &s).err(),
        Some(ConfigError::NonPositiveStepDown)
    );
}

#[test]
fn generators_give_nothing_for_an_empty_range() {
    let a = AdditiveConfig { layer_height: 1, min_z: 10, max_z: 0 };
    assert!(AdditiveToolpathGenerator.generate_toolpaths(&cube(), &a).unwrap().segments.is_empty());
    let s = SubtractiveConfig { step_down: 1, min_z: 10, max_z: 0 };
    assert!(SubtractiveToolpathGenerator.generate_toolpaths(&cube(), &s).unwrap().segments.is_empty());
}

#[test]
fn gather_layers_lifts_each_layer_in_turn() {
    let tri = vec![vertex(0.0, 0.0), vertex(1.0, 0.0), vertex(0.0, 1.0)];
    let quad = vec![vertex(0.0, 0.0), vertex(2.0, 0.0), vertex(2.0, 2.0), vertex(0.0, 2.0)];
    let pair = vec![vertex(0.0, 0.0), vertex(1.0, 1.0)];
    let found = vec![vec![tri], vec![pair, quad], vec![]];
    let set = gather_layers(found, &vec![5, 3, 9]);
    let shape: Vec<(i64, usize)> = set.segments.iter().map(|s| (s.z, s.vertices.len())).collect();
    assert_eq!(shape, vec![(5, 3), (3, 4)]);
}

#[test]
fn cross_section_loops_lie_on_the_cutting_plane() {
    let loops = cross_section_loops(&cube(), 5);
    assert!(!loops.is_empty());
    for l in &loops {
        for v in l {
            assert!(v.pos.z.abs() < 1e-9);
        }
    }
}
