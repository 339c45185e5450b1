use pumpkin_world::blocks::{
    BiomeTable, BlockChange, BlockTable, RawBlockState, RoughBiome, SectionPlace,
};
use pumpkin_world::level::{ChunkConfig, Dimension, Level, LevelConfig};
use pumpkin_world::math::{BlockPos, Vector2};
use pumpkin_world::tick::{
    random_position, random_positions, sort_ticks, ChunkTicks, OrderedTick, Probe, ScheduledTick,
    TickPriority, TickSampler,
};
use std::path::PathBuf;

fn open() -> Level {
    let blocks = BlockTable {
        air: 0,
        void_air: 9,
        random_ticks: vec![false, true, false, true],
    };
    let biomes = BiomeTable {
        known: vec![true, true, false, true],
    };
    let config = LevelConfig {
        chunk: ChunkConfig::Anvil(4),
    };
    Level::from_root_folder(&config, PathBuf::from("world"), 0, blocks, biomes, 0, Dimension(0))
}

fn tick(priority: TickPriority, sub_tick_order: u64) -> OrderedTick {
    OrderedTick {
        priority,
        sub_tick_order,
        position: BlockPos::new(1, 2, 3),
        value: 4,
    }
}

#[test]
fn block_states_default_to_void_air() {
    let level = open();
    assert_eq!(level.get_block_state(Some(5)), RawBlockState(5));
    assert_eq!(level.get_block_state(Some(0)), RawBlockState(0));
    assert_eq!(level.get_block_state(None), RawBlockState(9));
}

#[test]
fn biomes_default_to_the_void() {
    let level = open();
    assert!(level.biomes.has(3));
    assert_eq!(level.get_rough_biome(Some(3)), RoughBiome::Numbered(3));
    assert_eq!(level.get_rough_biome(None), RoughBiome::TheVoid);
}

#[test]
fn biomes_are_known_by_the_table() {
    let level = open();
    assert!(level.biomes.has(0));
    assert!(!level.biomes.has(2));
    assert!(!level.biomes.has(4));
    assert!(!level.biomes.has(u8::MAX));
}

#[test]
fn chunk_is_dirty_only_if_the_block_changed() {
    assert_eq!(
        Level::set_block_state(4, 5),
        BlockChange {
            replaced: 4,
            mark_dirty: true
        }
    );
    assert_eq!(
        Level::set_block_state(5, 5),
        BlockChange {
            replaced: 5,
            mark_dirty: false
        }
    );
}

#[test]
fn blocks_are_looked_up_in_their_chunk() {
    assert_eq!(
        SectionPlace::of(&BlockPos::new(-1, -64, 33)),
        SectionPlace {
            chunk: Vector2::new(-1, 2),
            x: 15,
            y: -64,
            z: 1
        }
    );
}

#[test]
fn random_ticks_go_by_the_table() {
    let table = BlockTable {
        air: 0,
        void_air: 9,
        random_ticks: vec![false, true],
    };
    assert!(!table.has_random_ticks(0));
    assert!(table.has_random_ticks(1));
    assert!(!table.has_random_ticks(2));
    assert!(!table.has_random_ticks(u16::MAX));
}

#[test]
fn drawn_number_picks_a_block() {
    let chunk = Vector2::new(-2, 3);
    assert_eq!(random_position(chunk, 0, 0), BlockPos::new(-32, -32, 48));
    assert_eq!(random_position(chunk, 4, 0xABC), BlockPos::new(-20, 43, 58));
    assert_eq!(random_position(chunk, 1, u32::MAX), BlockPos::new(-17, -1, 63));
    assert_eq!(
        random_position(chunk, 1, 0xFFFF_F000),
        random_position(chunk, 1, 0)
    );
}

#[test]
fn three_blocks_of_each_section_are_picked() {
    let chunk = Vector2::new(0, 0);
    let words = vec![0, 1, 2, 0x10, 0x20, 0x300];
    assert_eq!(
        random_positions(chunk, 2, &words),
        vec![
            BlockPos::new(0, -32, 0),
            BlockPos::new(1, -32, 0),
            BlockPos::new(2, -32, 0),
            BlockPos::new(0, -15, 0),
            BlockPos::new(0, -14, 0),
            BlockPos::new(0, -16, 3),
        ]
    );
}

#[test]
fn random_positions_lie_in_their_chunk() {
    let mut sampler = TickSampler::new();
    let chunk = Vector2::new(-5, 7);
    let positions = sampler.sample(chunk, 24);
    assert_eq!(positions.len(), 72);
    for (k, position) in positions.iter().enumerate() {
        assert_eq!(position.chunk_and_chunk_relative_position().0, chunk);
        let floor = (k as i32 / 3) * 16 - 32;
        assert!(floor <= position.0.y && position.0.y < floor + 16);
    }
    assert!(sampler.sample(chunk, 0).is_empty());
}

#[test]
fn draws_differ() {
    let mut sampler = TickSampler::new();
    let chunk = Vector2::new(0, 0);
    assert_ne!(sampler.sample(chunk, 24), sampler.sample(chunk, 24));
}

#[test]
fn ticks_are_put_in_order() {
    let sorted = sort_ticks(vec![
        tick(TickPriority::Normal, 3),
        tick(TickPriority::Low, 0),
        tick(TickPriority::ExtremelyHigh, 9),
        tick(TickPriority::Normal, 1),
        tick(TickPriority::Normal, 2),
        tick(TickPriority::VeryHigh, 8),
        tick(TickPriority::ExtremelyLow, 0),
        tick(TickPriority::VeryLow, 7),
        tick(TickPriority::High, 6),
    ]);
    let order: Vec<(u8, u64)> = sorted
        .iter()
        .map(|tick| (tick.priority.rank(), tick.sub_tick_order))
        .collect();
    assert_eq!(
        order,
        vec![
            (0, 9),
            (1, 8),
            (2, 6),
            (3, 1),
            (3, 2),
            (3, 3),
            (4, 0),
            (5, 7),
            (6, 0)
        ]
    );
    assert!(sort_ticks(Vec::new()).is_empty());
}

#[test]
fn sorting_many_ticks_keeps_them_all() {
    let ticks: Vec<OrderedTick> = (0..1000u64)
        .map(|n| tick(TickPriority::Normal, n * 7919 % 1000))
        .collect();
    let orders: Vec<u64> = sort_ticks(ticks).iter().map(|t| t.sub_tick_order).collect();
    assert_eq!(orders, (0..1000u64).collect::<Vec<u64>>());
}

#[test]
fn ticks_of_all_chunks_are_collected() {
    let level = open();
    let spot = BlockPos::new(7, 8, 9);
    let probe = |x: i32, found: Option<u16>| Probe {
        position: BlockPos::new(x, 0, 0),
        found,
    };
    let chunks = vec![
        ChunkTicks {
            block_ticks: vec![tick(TickPriority::Normal, 5), tick(TickPriority::Low, 1)],
            fluid_ticks: vec![tick(TickPriority::High, 4)],
            probes: vec![probe(1, Some(1)), probe(2, Some(2)), probe(3, None), probe(4, Some(3))],
            block_entities: vec![11, 12],
        },
        ChunkTicks {
            block_ticks: vec![tick(TickPriority::Normal, 2)],
            fluid_ticks: vec![tick(TickPriority::ExtremelyHigh, 8)],
            probes: vec![Probe {
                position: spot,
                found: Some(1),
            }],
            block_entities: vec![10],
        },
    ];
    let ticks = level.get_tick_data(&chunks);
    assert_eq!(
        ticks.block_ticks,
        vec![
            tick(TickPriority::Normal, 2),
            tick(TickPriority::Normal, 5),
            tick(TickPriority::Low, 1)
        ]
    );
    assert_eq!(
        ticks.fluid_ticks,
        vec![tick(TickPriority::ExtremelyHigh, 8), tick(TickPriority::High, 4)]
    );
    let random = |position: BlockPos| ScheduledTick {
        delay: 0,
        priority: TickPriority::Normal,
        position,
        value: (),
    };
    assert_eq!(
        ticks.random_ticks,
        vec![
            random(BlockPos::new(1, 0, 0)),
            random(BlockPos::new(4, 0, 0)),
            random(spot)
        ]
    );
    assert_eq!(ticks.block_entities, vec![11, 12, 10]);
}

#[test]
fn air_ticks_where_nothing_was_found_if_air_does() {
    let mut level = open();
    level.blocks.air = 1;
    let chunks = vec![ChunkTicks {
        block_ticks: Vec::new(),
        fluid_ticks: Vec::new(),
        probes: vec![Probe {
            position: BlockPos::new(0, 0, 0),
            found: None,
        }],
        block_entities: Vec::new(),
    }];
    assert_eq!(level.get_tick_data(&chunks).random_ticks.len(), 1);
}

#[test]
fn scheduled_ticks_are_counted() {
    let mut level = open();
    let position = BlockPos::new(-1, 64, 16);
    let order = level.schedule_block_tick(7, position, 3, TickPriority::High);
    assert_eq!(order.chunk, Vector2::new(-1, 1));
    assert_eq!(order.sub_tick_order, 0);
    assert_eq!(
        order.tick,
        ScheduledTick {
            delay: 3,
            priority: TickPriority::High,
            position,
            value: 7
        }
    );
    let order = level.schedule_fluid_tick(8, position, 0, TickPriority::Normal);
    assert_eq!(order.sub_tick_order, 1);
    assert_eq!(order.tick.value, 8);
    let order = level.schedule_block_tick(7, position, 3, TickPriority::High);
    assert_eq!(order.sub_tick_order, 2);
}

#[test]
fn the_chunk_of_the_position_is_asked_about_ticks() {
    let position = BlockPos::new(-1, 64, 16);
    let query = Level::is_block_tick_scheduled(&position, 5);
    assert_eq!(query.chunk, Vector2::new(-1, 1));
    assert_eq!(query.position, position);
    assert_eq!(query.value, 5);
    let query = Level::is_fluid_tick_scheduled(&position, 6);
    assert_eq!(query.chunk, Vector2::new(-1, 1));
    assert_eq!(query.position, position);
    assert_eq!(query.value, 6);
}
