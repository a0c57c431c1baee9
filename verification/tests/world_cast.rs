use voxels::fixed::Fix64;
use voxels::vec3d::Vec3D;
use voxels::world::{init_block_schematic, Block, Schematic, World};

#[test]
fn test_ray_cast() {
    let world = World::new();
    let valid_steps = [
        Vec3D { x: -1i64, y: 0, z: 0 },
        Vec3D { x: 1, y: 0, z: 0 },
        Vec3D { x: 0, y: -1, z: 0 },
        Vec3D { x: 0, y: 1, z: 0 },
        Vec3D { x: 0, y: 0, z: -1 },
        Vec3D { x: 0, y: 0, z: 1 },
    ];
    let check_cast_ray = |dir: Vec3D<Fix64>, expected_visited: &[Vec3D<i64>]| {
        let visited = world.cast_ray(
            Vec3D {
                x: Fix64::from_int(0),
                y: Fix64::from_int(0),
                z: Fix64::from_int(0),
            },
            dir,
        );
        assert_eq!(expected_visited, &*visited);
        for i in visited.windows(2) {
            let diff = i[0].sub_const(i[1]);
            assert!(valid_steps.contains(&diff));
        }
    };
    check_cast_ray(
        Vec3D {
            x: Fix64::from_rat(-1, 8),
            y: Fix64::from_int(0),
            z: Fix64::from_int(1),
        },
        &[
            Vec3D { x: 0, y: 0, z: 0 },
            Vec3D { x: -1, y: 0, z: 0 },
            Vec3D { x: -1, y: 0, z: 1 },
            Vec3D { x: -1, y: 0, z: 2 },
            Vec3D { x: -1, y: 0, z: 3 },
            Vec3D { x: -1, y: 0, z: 4 },
            Vec3D { x: -1, y: 0, z: 5 },
            Vec3D { x: -1, y: 0, z: 6 },
            Vec3D { x: -1, y: 0, z: 7 },
            Vec3D { x: -2, y: 0, z: 7 },
            Vec3D { x: -2, y: 0, z: 8 },
            Vec3D { x: -2, y: 0, z: 9 },
            Vec3D { x: -2, y: 0, z: 10 },
            Vec3D { x: -2, y: 0, z: 11 },
            Vec3D { x: -2, y: 0, z: 12 },
            Vec3D { x: -2, y: 0, z: 13 },
            Vec3D { x: -2, y: 0, z: 14 },
            Vec3D { x: -2, y: 0, z: 15 },
            Vec3D { x: -3, y: 0, z: 15 },
            Vec3D { x: -3, y: 0, z: 16 },
            Vec3D { x: -3, y: 0, z: 17 },
            Vec3D { x: -3, y: 0, z: 18 },
            Vec3D { x: -3, y: 0, z: 19 },
        ],
    );
    check_cast_ray(
        Vec3D {
            x: Fix64::from_rat(1, 8),
            y: Fix64::from_int(0),
            z: Fix64::from_int(1),
        },
        &[
            Vec3D { x: 0, y: 0, z: 0 },
            Vec3D { x: 0, y: 0, z: 1 },
            Vec3D { x: 0, y: 0, z: 2 },
            Vec3D { x: 0, y: 0, z: 3 },
            Vec3D { x: 0, y: 0, z: 4 },
            Vec3D { x: 0, y: 0, z: 5 },
            Vec3D { x: 0, y: 0, z: 6 },
            Vec3D { x: 0, y: 0, z: 7 },
            Vec3D { x: 1, y: 0, z: 7 },
            Vec3D { x: 1, y: 0, z: 8 },
            Vec3D { x: 1, y: 0, z: 9 },
            Vec3D { x: 1, y: 0, z: 10 },
            Vec3D { x: 1, y: 0, z: 11 },
            Vec3D { x: 1, y: 0, z: 12 },
            Vec3D { x: 1, y: 0, z: 13 },
            Vec3D { x: 1, y: 0, z: 14 },
            Vec3D { x: 1, y: 0, z: 15 },
            Vec3D { x: 2, y: 0, z: 15 },
            Vec3D { x: 2, y: 0, z: 16 },
            Vec3D { x: 2, y: 0, z: 17 },
            Vec3D { x: 2, y: 0, z: 18 },
            Vec3D { x: 2, y: 0, z: 19 },
        ],
    );
}

#[test]
fn test_grid_constants() {
    assert_eq!(voxels::world::SIZE, 40);
    assert_eq!(voxels::world::ARRAY_AXIS_ORIGIN, -(voxels::world::SIZE as i64) / 2);
}

#[test]
fn test_get_wraps_out_of_range() {
    let world = World::new();
    // Out-of-grid lookups convert totally and answer None, never a fault.
    assert!(world.get(Vec3D { x: 1000i64, y: 0, z: 0 }).is_none());
    assert!(world.get(Vec3D { x: 0i64, y: -21, z: 0 }).is_none());
    assert!(world.get(Vec3D { x: 20i64, y: 0, z: 0 }).is_none());
    assert!(world.get(Vec3D { x: i64::MIN, y: i64::MAX, z: 0 }).is_none());
    // In-grid lookups always answer Some.
    assert!(world.get(Vec3D { x: -20i64, y: -20, z: -20 }).is_some());
    assert!(world.get(Vec3D { x: 19i64, y: 19, z: 19 }).is_some());
    assert!(world.get(Vec3D { x: 0i64, y: 0, z: 0 }).is_some());
    // The conversion itself is total and wraps out-of-range inputs, so
    // they land past the grid instead of faulting.
    let ap = World::array_pos(Vec3D { x: i64::MIN, y: -21, z: 31 });
    assert_eq!((ap.x, ap.y, ap.z), ((1usize << 63) + 20, usize::MAX, 51));
    let ap = World::array_pos(Vec3D { x: 25i64, y: -20, z: 19 });
    assert_eq!((ap.x, ap.y, ap.z), (45usize, 0usize, 39usize));
    let ap = World::array_pos(Vec3D { x: -20i64, y: 0, z: 19 });
    assert_eq!((ap.x, ap.y, ap.z), (0usize, 20usize, 39usize));
}

#[test]
fn test_from_array_pos_round_trip() {
    let pos = World::from_array_pos(Vec3D { x: 0usize, y: 20, z: 39 });
    assert_eq!(pos, Vec3D { x: -20i64, y: 0, z: 19 });
    let ap = World::array_pos(pos);
    assert_eq!((ap.x, ap.y, ap.z), (0usize, 20usize, 39usize));
    // The conversions are mutual inverses under wrapping, on and off the
    // grid alike.
    for ap in [
        Vec3D { x: 45usize, y: 45, z: 45 },
        Vec3D { x: 0usize, y: 39, z: 1000 },
        Vec3D { x: usize::MAX, y: 1usize << 63, z: 7 },
    ] {
        assert_eq!(World::array_pos(World::from_array_pos(ap)), ap);
    }
    for pos in [
        Vec3D { x: 25i64, y: -100, z: 0 },
        Vec3D { x: i64::MAX, y: i64::MIN, z: -21 },
    ] {
        assert_eq!(World::from_array_pos(World::array_pos(pos)), pos);
    }
}

#[test]
fn test_new_with_schematic() {
    // A schematic stamped at construction takes priority over every other
    // generated feature, even where its block is empty.
    let solid = voxels::screen::RgbColor { r: 7, g: 7, b: 7 }.to_packed();
    let sch = Schematic {
        size_x: 1,
        size_y: 1,
        size_z: 1,
        blocks: vec![Block { color: Some(solid) }],
    };
    // Stamped over empty interior: the cell gains the schematic's block.
    let world = World::new_with_schematic(&sch, Vec3D { x: 0i64, y: 0, z: 0 });
    assert_eq!(world.get(Vec3D { x: 0i64, y: 0, z: 0 }).unwrap().color, Some(solid));
    // Elsewhere the world matches the default generation.
    assert!(!world.get(Vec3D { x: 0i64, y: -5, z: 15 }).unwrap().is_empty());
    assert!(world.get(Vec3D { x: 1i64, y: 0, z: 0 }).unwrap().is_empty());
    // An empty schematic block hollows out a sphere center: schematic
    // priority beats the spheres.
    let hole = Schematic {
        size_x: 1,
        size_y: 1,
        size_z: 1,
        blocks: vec![Block::default()],
    };
    let world = World::new_with_schematic(&hole, Vec3D { x: 0i64, y: -5, z: 15 });
    assert!(world.get(Vec3D { x: 0i64, y: -5, z: 15 }).unwrap().is_empty());
    assert!(!world.get(Vec3D { x: 0i64, y: -5, z: 16 }).unwrap().is_empty());
}

#[test]
fn test_default_world_hit_along_z() {
    // From the origin toward +z the first non-default block is the far
    // wall of the generated world; the previous position is one cell
    // before it.
    let world = World::new();
    let origin = Vec3D {
        x: Fix64::from_int(0),
        y: Fix64::from_int(0),
        z: Fix64::from_int(0),
    };
    let forward = Vec3D {
        x: Fix64::from_int(0),
        y: Fix64::from_int(0),
        z: Fix64::from_int(1),
    };
    let (prev, hit) = world.get_hit_pos(origin, forward);
    assert_eq!(hit, Some(Vec3D { x: 0i64, y: 0, z: 19 }));
    assert_eq!(prev, Some(Vec3D { x: 0i64, y: 0, z: 18 }));
    let hit_block = world.get(hit.unwrap()).unwrap();
    assert!(!hit_block.is_empty());
    let prev_block = world.get(prev.unwrap()).unwrap();
    assert!(prev_block.is_empty());
    let diff = hit.unwrap().sub_const(prev.unwrap());
    assert_eq!(diff, Vec3D { x: 0i64, y: 0, z: 1 });
}

#[test]
fn test_world_generation_features() {
    let world = World::new();
    // The interior away from all features is empty.
    assert!(world.get(Vec3D { x: 10i64, y: 10, z: 10 }).unwrap().is_empty());
    // The checkerboard plane sits at y = -10.
    assert!(!world.get(Vec3D { x: 0i64, y: -10, z: 0 }).unwrap().is_empty());
    // Sphere centers are solid: (0,-5,15), (-5,-5,-5), (-5,5,-15), (5,5,-5), (5,-5,-15).
    assert!(!world.get(Vec3D { x: 0i64, y: -5, z: 15 }).unwrap().is_empty());
    assert!(!world.get(Vec3D { x: -5i64, y: -5, z: -5 }).unwrap().is_empty());
    assert!(!world.get(Vec3D { x: -5i64, y: 5, z: -15 }).unwrap().is_empty());
    assert!(!world.get(Vec3D { x: 5i64, y: 5, z: -5 }).unwrap().is_empty());
    assert!(!world.get(Vec3D { x: 5i64, y: -5, z: -15 }).unwrap().is_empty());
    // Just outside a sphere's squared radius the cell is empty again.
    assert!(world.get(Vec3D { x: 0i64, y: -5, z: 18 }).unwrap().is_empty());
    // The shell carries the pseudo-color.
    assert!(!world.get(Vec3D { x: -20i64, y: 0, z: 0 }).unwrap().is_empty());
}

#[test]
fn test_set_and_get() {
    let mut world = World::new();
    let pos = Vec3D { x: 3i64, y: 4, z: 5 };
    assert!(world.get(pos).unwrap().is_empty());
    let color = voxels::screen::RgbColor { r: 10, g: 20, b: 30 }.to_packed();
    assert!(world.set(pos, Block { color: Some(color) }));
    assert_eq!(world.get(pos).unwrap().color, Some(color));
    assert!(world.set(pos, Block::default()));
    assert!(world.get(pos).unwrap().is_empty());
    // Writes outside the grid do nothing and say so.
    assert!(!world.set(Vec3D { x: 99i64, y: 0, z: 0 }, Block::default()));
}

#[test]
fn test_positions_enumeration() {
    let aps = World::array_positions();
    assert_eq!(aps.len(), 64000);
    assert_eq!(aps[0], Vec3D { x: 0usize, y: 0, z: 0 });
    assert_eq!(aps[1], Vec3D { x: 0usize, y: 0, z: 1 });
    assert_eq!(aps[40], Vec3D { x: 0usize, y: 1, z: 0 });
    assert_eq!(aps[1600], Vec3D { x: 1usize, y: 0, z: 0 });
    assert_eq!(aps[63999], Vec3D { x: 39usize, y: 39, z: 39 });
    let ps = World::positions();
    assert_eq!(ps.len(), 64000);
    assert_eq!(ps[0], Vec3D { x: -20i64, y: -20, z: -20 });
    assert_eq!(ps[63999], Vec3D { x: 19i64, y: 19, z: 19 });
}

#[test]
fn test_schematic_lookup() {
    let color = voxels::screen::RgbColor { r: 1, g: 2, b: 3 }.to_packed();
    let mut blocks = Vec::new();
    for i in 0..8 {
        if i == 0 {
            blocks.push(Block { color: Some(color) });
        } else {
            blocks.push(Block::default());
        }
    }
    let sch = Schematic { size_x: 2, size_y: 2, size_z: 2, blocks };
    let center = Vec3D { x: 0i64, y: 0, z: 0 };
    // Cell (-1,-1,-1) maps to schematic index 0.
    let b = init_block_schematic(Vec3D { x: -1i64, y: -1, z: -1 }, center, &sch);
    assert_eq!(b.unwrap().color, Some(color));
    // Cell (0,0,0) maps to index 7, which is empty.
    let b = init_block_schematic(Vec3D { x: 0i64, y: 0, z: 0 }, center, &sch);
    assert!(b.unwrap().is_empty());
    // Outside the extent there is no contribution.
    let b = init_block_schematic(Vec3D { x: 2i64, y: 0, z: 0 }, center, &sch);
    assert!(b.is_none());
}
