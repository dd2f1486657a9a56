use insta_kill::map::adjust_chunks;
use insta_kill::map::chunk_seed;
use insta_kill::map::level_iid;
use insta_kill::map::level_set_from_map_indices;
use insta_kill::map::map_indices_to_index;
use insta_kill::map::map_indices_to_world_coords;
use insta_kill::map::visible_chunks;
use insta_kill::map::world_coords_to_map_indices;
use insta_kill::map::Chunk;
use insta_kill::seed::Seed;
use insta_kill::vec2::Vec2;

const IIDS: [&str; 6] = [
    "4561cae1-8990-11ee-bdb7-27b92e7f0bd1",
    "4c5c13d0-8990-11ee-bb97-5335be5f091d",
    "30c12d00-8990-11ee-8c0e-1f466f38a0b0",
    "09bdb020-8990-11ee-8c0e-83df39a96f91",
    "39c4ea40-8990-11ee-8c0e-f5477a2dc37e",
    "54eaef30-8990-11ee-bb97-69638b6a5187",
];

#[test]
fn chunks_are_counted_from_zero_up_and_from_minus_one_down() {
    assert_eq!(world_coords_to_map_indices(Vec2::new(0, 0)), (0, 0));
    assert_eq!(world_coords_to_map_indices(Vec2::new(1_023_999, 1_024_000)), (0, 1));
    assert_eq!(world_coords_to_map_indices(Vec2::new(-1, -1_023_999)), (-1, -1));
    assert_eq!(world_coords_to_map_indices(Vec2::new(-1_024_000, -1_024_001)), (-2, -2));
    assert_eq!(world_coords_to_map_indices(Vec2::new(i32::MAX, i32::MIN)), (2097, -2098));
}

#[test]
fn a_chunk_has_its_corner_at_a_multiple_of_its_side() {
    assert_eq!(map_indices_to_world_coords(0, 0), Vec2::new(0, 0));
    assert_eq!(map_indices_to_world_coords(2, -3), Vec2::new(2_048_000, -3_072_000));
    assert_eq!(map_indices_to_world_coords(i32::MAX, i32::MIN), Vec2::new(i32::MAX, i32::MIN));
}

#[test]
fn the_seed_of_a_chunk_adds_the_distances_of_its_indices() {
    assert_eq!(chunk_seed(0, 0, 7), 7);
    assert_eq!(chunk_seed(-3, 4, 7), 14);
    assert_eq!(chunk_seed(i32::MIN, i32::MAX, u32::MAX), 4294967295 + 2147483648 + 2147483647);
}

#[test]
fn every_chunk_is_laid_out_with_one_of_the_levels() {
    for x in -5..5 {
        for y in -5..5 {
            let index = map_indices_to_index(x, y, 1_000_000);
            assert!(index < 6);
            let name = level_set_from_map_indices(x, y, 1_000_000);
            assert_eq!(name, IIDS[index]);
        }
    }
}

#[test]
fn the_same_chunk_is_always_laid_out_alike() {
    let first = map_indices_to_index(3, -4, 99);
    for _ in 0..10 {
        assert_eq!(map_indices_to_index(3, -4, 99), first);
        assert_eq!(map_indices_to_index(-3, 4, 99), first);
    }
}

#[test]
fn levels_are_named_by_their_place() {
    for (i, name) in IIDS.iter().enumerate() {
        assert_eq!(level_iid(i), *name);
    }
    assert_eq!(level_iid(6), IIDS[0]);
    assert_eq!(level_iid(usize::MAX), IIDS[0]);
}

#[test]
fn the_camera_sees_the_chunks_around_the_player() {
    let (min, max) = visible_chunks(Vec2::new(0, 0));
    assert_eq!(min, Chunk { x: -1, y: -1 });
    assert_eq!(max, Chunk { x: 0, y: 0 });
    let (min, max) = visible_chunks(Vec2::new(1_000_000, 512_000));
    assert_eq!(min, Chunk { x: 0, y: -1 });
    assert_eq!(max, Chunk { x: 1, y: 1 });
}

#[test]
fn chunks_out_of_sight_go_and_missing_ones_come() {
    let chunks = vec![
        Chunk { x: 5, y: 5 },
        Chunk { x: 0, y: 0 },
        Chunk { x: -1, y: -2 },
        Chunk { x: -1, y: 0 },
    ];
    let plan = adjust_chunks(Vec2::new(0, 0), &chunks);
    assert_eq!(plan.despawn, vec![0, 2]);
    assert_eq!(plan.spawn, vec![Chunk { x: -1, y: -1 }, Chunk { x: 0, y: -1 }]);
}

#[test]
fn an_empty_map_is_filled_column_after_column() {
    let plan = adjust_chunks(Vec2::new(1_000_000, 512_000), &Vec::new());
    assert!(plan.despawn.is_empty());
    assert_eq!(
        plan.spawn,
        vec![
            Chunk { x: 0, y: -1 },
            Chunk { x: 0, y: 0 },
            Chunk { x: 0, y: 1 },
            Chunk { x: 1, y: -1 },
            Chunk { x: 1, y: 0 },
            Chunk { x: 1, y: 1 },
        ]
    );
}

#[test]
fn a_full_map_stays_as_it_is() {
    let chunks = vec![
        Chunk { x: -1, y: -1 },
        Chunk { x: -1, y: 0 },
        Chunk { x: 0, y: -1 },
        Chunk { x: 0, y: 0 },
    ];
    let plan = adjust_chunks(Vec2::new(0, 0), &chunks);
    assert!(plan.despawn.is_empty());
    assert!(plan.spawn.is_empty());
}

#[test]
fn the_map_works_at_the_edge_of_the_world() {
    let plan = adjust_chunks(Vec2::new(i32::MAX, i32::MIN), &Vec::new());
    assert_eq!(
        plan.spawn,
        vec![
            Chunk { x: 2096, y: -2098 },
            Chunk { x: 2096, y: -2097 },
            Chunk { x: 2097, y: -2098 },
            Chunk { x: 2097, y: -2097 },
        ]
    );
}

#[test]
fn a_seed_is_the_low_bits_of_the_distance_from_zero() {
    assert_eq!(Seed::from_millis(0), Seed(0));
    assert_eq!(Seed::from_millis(5), Seed(5));
    assert_eq!(Seed::from_millis(-5), Seed(5));
    assert_eq!(Seed::from_millis(0x1_0000_0005), Seed(5));
    assert_eq!(Seed::from_millis(-0x7_ffff_fffe), Seed(0xffff_fffe));
    assert_eq!(Seed::from_millis(i64::MIN), Seed(0));
    assert_eq!(Seed::from_millis(i64::MAX), Seed(u32::MAX));
    assert_eq!(Seed::from_millis(1_000_000_000_555), Seed(3_567_587_883));
}

#[test]
fn a_seed_can_be_taken_from_the_clock() {
    let a = Seed::now();
    let b = Seed::now();
    assert!(a.0 as u64 <= u32::MAX as u64);
    assert!(b.0 as u64 <= u32::MAX as u64);
}
