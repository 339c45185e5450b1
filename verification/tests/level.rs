use pumpkin_world::blocks::{BiomeTable, BlockTable};
use pumpkin_world::folder::{LevelFolder, Subfolder};
use pumpkin_world::level::{ChunkConfig, Dimension, Level, LevelConfig, Seed, WorldGen};
use pumpkin_world::math::{BlockPos, Vector2, Vector3};
use pumpkin_world::threads::{entity_thread_name, ThreadPlan};
use std::path::PathBuf;

fn open(seed: i64, chunk: ChunkConfig) -> Level {
    let blocks = BlockTable {
        air: 0,
        void_air: 9,
        random_ticks: vec![false, true],
    };
    let biomes = BiomeTable {
        known: Vec::new(),
    };
    let root = PathBuf::from("world");
    Level::from_root_folder(&LevelConfig { chunk }, root, 6, blocks, biomes, seed, Dimension(2))
}

#[test]
fn new_level_is_empty() {
    let level = open(5, ChunkConfig::Linear(3));
    assert_eq!(level.seed, Seed(5));
    assert_eq!(level.chunk_saver, ChunkConfig::Linear(3));
    assert_eq!(level.entity_saver, ChunkConfig::Linear(3));
    assert_eq!(level.loaded_chunk_count(), 0);
    assert!(level.list_cached().is_empty());
    assert!(level.loaded_entity_chunk_handles().is_empty());
    assert!(!level.is_chunk_watched(&Vector2::new(0, 0)));
    assert!(!level.is_shutting_down);
    assert!(!level.shut_down_chunk_system);
    assert!(!level.should_save);
    assert!(!level.should_unload);
}

#[test]
fn both_savers_use_the_configured_format() {
    let level = open(0, ChunkConfig::Anvil(4));
    assert_eq!(level.chunk_saver, ChunkConfig::Anvil(4));
    assert_eq!(level.entity_saver, ChunkConfig::Anvil(4));
}

#[test]
fn both_savers_use_the_settings_of_the_configuration() {
    let level = open(0, ChunkConfig::Linear(17));
    assert_eq!(level.chunk_saver, ChunkConfig::Linear(17));
    assert_eq!(level.entity_saver, ChunkConfig::Linear(17));
}

#[test]
fn world_is_generated_from_its_seed_and_dimension() {
    let level = open(-2, ChunkConfig::Anvil(4));
    assert_eq!(
        level.world_gen,
        WorldGen {
            seed: Seed(u64::MAX - 1),
            dimension: Dimension(2)
        }
    );
    assert_eq!(level.block_registry, 6);
}

#[test]
fn negative_seed_wraps() {
    assert_eq!(open(-1, ChunkConfig::Anvil(4)).seed, Seed(u64::MAX));
    assert_eq!(Seed::from_signed(i64::MIN), Seed(1 << 63));
    assert_eq!(Seed::from_signed(i64::MAX), Seed((1 << 63) - 1));
}

#[test]
fn folders_lie_in_the_root() {
    let level = open(0, ChunkConfig::Anvil(4));
    assert_eq!(level.level_folder.root_folder, PathBuf::from("world"));
    assert_eq!(level.level_folder.region_folder, PathBuf::from("world").join("region"));
    assert_eq!(level.level_folder.entities_folder, PathBuf::from("world").join("entities"));
    let copy = level.level_folder.clone();
    assert_eq!(copy.root_folder, level.level_folder.root_folder);
    assert_eq!(copy.region_folder, level.level_folder.region_folder);
    assert_eq!(copy.entities_folder, level.level_folder.entities_folder);
}

#[test]
fn region_folder_is_created_for_either_missing_folder() {
    let folder = LevelFolder::from_root(PathBuf::from("w"));
    assert_eq!(folder.subfolder(Subfolder::Region), &folder.region_folder);
    assert_eq!(folder.subfolder(Subfolder::Entities), &folder.entities_folder);
    for which in [Subfolder::Region, Subfolder::Entities] {
        assert_eq!(folder.folder_to_create(which, true), None);
        assert_eq!(folder.folder_to_create(which, false), Some(&folder.region_folder));
    }
}

#[test]
fn chunks_come_and_go() {
    let mut level = open(0, ChunkConfig::Anvil(4));
    let (a, b) = (Vector2::new(1, 2), Vector2::new(2, 1));
    assert_eq!(level.insert_chunk(a, 10), None);
    assert_eq!(level.insert_chunk(b, 11), None);
    assert_eq!(level.insert_chunk(a, 12), Some(10));
    assert_eq!(level.loaded_chunk_count(), 2);
    assert_eq!(level.try_get_chunk(&a), Some(12));
    assert_eq!(level.try_get_chunk(&Vector2::new(1, 1)), None);
    let mut handles = level.loaded_chunk_handles();
    handles.sort();
    assert_eq!(handles, vec![((1, 2), 12), ((2, 1), 11)]);
    let mut cached: Vec<(i32, i32)> = level.list_cached().into_iter().map(|at| at.key()).collect();
    cached.sort();
    assert_eq!(cached, vec![(1, 2), (2, 1)]);
    assert_eq!(level.remove_chunk(a), Some(12));
    assert_eq!(level.remove_chunk(a), None);
    assert_eq!(level.loaded_chunk_count(), 1);
}

#[test]
fn keys_and_coordinates_match() {
    let at = Vector2::new(-3, 7);
    assert_eq!(at.key(), (-3, 7));
    assert_eq!(Vector2::from_key(at.key()), at);
}

#[test]
fn position_is_chunk_corner_plus_offset() {
    for (x, z) in [(0, 0), (15, 16), (-1, -16), (-17, 31), (i32::MIN, i32::MAX)] {
        let position = BlockPos::new(x, 70, z);
        let (chunk, relative) = position.chunk_and_chunk_relative_position();
        assert_eq!(chunk, Vector2::new(x.div_euclid(16), z.div_euclid(16)));
        assert_eq!(
            relative,
            Vector3 {
                x: x.rem_euclid(16),
                y: 70,
                z: z.rem_euclid(16)
            }
        );
    }
}

#[test]
fn thread_counts_follow_the_processors() {
    let counts = |cpus: usize| {
        let plan = ThreadPlan::for_cpus(cpus);
        assert_eq!(plan.io_threads, 4);
        (plan.generation_threads, plan.entity_threads)
    };
    assert_eq!(counts(0), (1, 1));
    assert_eq!(counts(2), (1, 1));
    assert_eq!(counts(3), (1, 1));
    assert_eq!(counts(4), (2, 1));
    assert_eq!(counts(7), (5, 2));
    assert_eq!(counts(16), (14, 7));
    assert_eq!(counts(usize::MAX), (usize::MAX - 2, (usize::MAX - 2) / 2));
}

#[test]
fn this_machine_has_threads() {
    let plan = ThreadPlan::for_this_machine();
    assert!(plan.generation_threads >= 1);
    assert!(plan.entity_threads >= 1);
    assert_eq!(plan, ThreadPlan::for_cpus(num_cpus::get()));
}

#[test]
fn threads_are_numbered_in_their_names() {
    assert_eq!(entity_thread_name(0), "Entity Chunk Generation Thread 0");
    assert_eq!(entity_thread_name(10), "Entity Chunk Generation Thread 10");
    assert_eq!(entity_thread_name(9075), "Entity Chunk Generation Thread 9075");
    assert_eq!(
        entity_thread_name(usize::MAX),
        format!("Entity Chunk Generation Thread {}", usize::MAX)
    );
}
