use pumpkin_world::blocks::{BiomeTable, BlockTable};
use pumpkin_world::entity::{
    Arrival, ChunkEntityData, ChunkReadingError, EntityChunkStep, LoadedData,
};
use pumpkin_world::fetch::{ChunkFetch, FetchAction};
use pumpkin_world::level::{ChunkConfig, Dimension, Level, LevelConfig};
use pumpkin_world::math::Vector2;
use pumpkin_world::shutdown::{ShutdownAction, ShutdownPhase};
use std::path::PathBuf;

fn open() -> Level {
    let blocks = BlockTable {
        air: 0,
        void_air: 9,
        random_ticks: Vec::new(),
    };
    let biomes = BiomeTable {
        known: Vec::new(),
    };
    let config = LevelConfig {
        chunk: ChunkConfig::Linear(3),
    };
    Level::from_root_folder(&config, PathBuf::from("world"), 0, blocks, biomes, 0, Dimension(0))
}

fn at(x: i32, z: i32) -> Vector2 {
    Vector2::new(x, z)
}

#[test]
fn generated_entity_chunk_is_empty_and_unsaved() {
    let chunk = ChunkEntityData::generated(at(3, -4));
    assert_eq!(chunk.x, 3);
    assert_eq!(chunk.z, -4);
    assert!(chunk.data.is_empty());
    assert!(chunk.dirty);
}

#[test]
fn single_fetch_says_what_came_back() {
    let pos = at(1, 1);
    assert_eq!(
        Level::load_single_entity_chunk(Some(LoadedData::Loaded(6, pos))),
        Ok((6, false))
    );
    assert_eq!(
        Level::load_single_entity_chunk(Some(LoadedData::Missing(pos))),
        Err(ChunkReadingError::ChunkNotExist)
    );
    assert_eq!(
        Level::load_single_entity_chunk(Some(LoadedData::Error(
            pos,
            ChunkReadingError::Other(4)
        ))),
        Err(ChunkReadingError::Other(4))
    );
    assert_eq!(
        Level::load_single_entity_chunk(None),
        Err(ChunkReadingError::ChunkNotExist)
    );
}

#[test]
fn fetched_entity_chunk_is_kept_where_it_was_asked_for() {
    let mut level = open();
    assert_eq!(level.get_entity_chunk(at(2, 2)), EntityChunkStep::Fetch);
    let fetched = Some(LoadedData::Loaded(5, at(8, 8)));
    assert_eq!(
        level.entity_chunk_fetched(at(2, 2), fetched, 0),
        (EntityChunkStep::Ready(5), None)
    );
    assert_eq!(level.get_entity_chunk(at(2, 2)), EntityChunkStep::Ready(5));
    assert_eq!(level.get_entity_chunk(at(8, 8)), EntityChunkStep::Fetch);
    assert_eq!(level.try_get_entity_chunk(at(2, 2)), Some(5));
    assert_eq!(level.try_get_entity_chunk(at(8, 8)), None);
}

#[test]
fn received_entity_chunk_is_kept_where_it_says_it_is() {
    let mut level = open();
    let arrival = level.entity_chunk_arrived(LoadedData::Loaded(5, at(8, 8)), 0);
    assert_eq!(
        arrival,
        Arrival::Deliver {
            handle: 5,
            generated: false,
            replaced: None
        }
    );
    assert_eq!(level.get_entity_chunk(at(8, 8)), EntityChunkStep::Ready(5));
}

#[test]
fn one_request_serves_all_who_wait() {
    let mut level = open();
    let pos = at(-1, 6);
    assert_eq!(
        level.entity_chunk_fetched(pos, None, 30),
        (EntityChunkStep::AwaitGeneration { request: true }, None)
    );
    assert_eq!(
        level.entity_chunk_arrived(LoadedData::Missing(pos), 31),
        Arrival::AwaitGeneration {
            pos,
            request: false,
            generated: true
        }
    );
    let error = LoadedData::Error(pos, ChunkReadingError::Other(1));
    assert_eq!(
        level.entity_chunk_arrived(error, 32),
        Arrival::AwaitGeneration {
            pos,
            request: false,
            generated: true
        }
    );
    assert!(level.await_entity_generation(at(0, 0), 40));

    let generated = level.generate_entity_chunk(pos, 77).unwrap();
    assert_eq!((generated.chunk.x, generated.chunk.z), (-1, 6));
    assert_eq!(generated.waiters, vec![30, 31, 32]);
    assert_eq!(generated.replaced, None);
    assert_eq!(level.get_entity_chunk(pos), EntityChunkStep::Ready(77));
    // the others still wait
    assert!(!level.await_entity_generation(at(0, 0), 41));
    assert_eq!(level.generate_entity_chunk(at(0, 0), 78).unwrap().waiters, vec![40, 41]);
    // nobody waits any more
    let generated = level.generate_entity_chunk(pos, 79).unwrap();
    assert!(generated.waiters.is_empty());
    assert_eq!(generated.replaced, Some(77));
    assert_eq!(level.get_entity_chunk(pos), EntityChunkStep::Ready(79));
    assert!(level.await_entity_generation(pos, 50));
}

#[test]
fn replaced_entity_chunks_are_handed_back() {
    let mut level = open();
    let pos = at(4, 4);
    level.entity_chunk_arrived(LoadedData::Loaded(1, pos), 0);
    assert_eq!(
        level.entity_chunk_arrived(LoadedData::Loaded(2, pos), 0),
        Arrival::Deliver {
            handle: 2,
            generated: false,
            replaced: Some(1)
        }
    );
    assert_eq!(
        level.entity_chunk_fetched(pos, Some(LoadedData::Loaded(3, pos)), 0),
        (EntityChunkStep::Ready(3), Some(2))
    );
    assert_eq!(level.try_get_entity_chunk(pos), Some(3));
}

#[test]
fn nothing_is_generated_during_shutdown() {
    let mut level = open();
    assert!(level.await_entity_generation(at(1, 1), 3));
    level.is_shutting_down = true;
    assert!(level.generate_entity_chunk(at(1, 1), 8).is_none());
    assert_eq!(level.get_entity_chunk(at(1, 1)), EntityChunkStep::Fetch);
    assert!(!level.await_entity_generation(at(1, 1), 4));
}

#[test]
fn every_chunk_is_handed_out_or_fetched() {
    let mut level = open();
    level.entity_chunk_arrived(LoadedData::Loaded(1, at(1, 0)), 0);
    level.entity_chunk_arrived(LoadedData::Loaded(3, at(3, 0)), 0);
    let asked = vec![at(3, 0), at(2, 0), at(1, 0), at(4, 0), at(3, 0)];
    let plan = level.receive_entity_chunks(&asked);
    assert_eq!(plan.ready, vec![3, 1, 3]);
    assert_eq!(plan.to_fetch, vec![at(2, 0), at(4, 0)]);
    assert!(plan.has_chunks_to_fetch());
    assert!(!level.receive_entity_chunks(&vec![at(1, 0)]).has_chunks_to_fetch());
}

#[test]
fn chunk_in_memory_is_handed_out_at_once() {
    let mut level = open();
    level.insert_chunk(at(0, 0), 4);
    assert_eq!(
        level.get_chunk(at(0, 0), ChunkFetch::Start, None),
        (ChunkFetch::Done(4), FetchAction::Finish(4))
    );
}

#[test]
fn missing_chunk_is_requested_and_waited_for() {
    let level = open();
    let pos = at(5, 5);
    let mut fetch = ChunkFetch::Start;
    let mut actions = Vec::new();
    let heard = [None, None, None, None, Some(9), None];
    for delivered in heard {
        let (next, action) = level.get_chunk(pos, fetch, delivered);
        fetch = next;
        actions.push(action);
    }
    assert_eq!(
        actions,
        vec![
            FetchAction::AddListener,
            FetchAction::AddForceTicketAndSendChange,
            FetchAction::AwaitListener,
            FetchAction::AwaitListener,
            FetchAction::RemoveForceTicket,
            FetchAction::Finish(9),
        ]
    );
    assert_eq!(fetch, ChunkFetch::Done(9));
}

#[test]
fn chunk_that_comes_in_meanwhile_is_not_waited_for() {
    let mut level = open();
    let pos = at(5, 5);
    let (fetch, _) = level.get_chunk(pos, ChunkFetch::Start, None);
    assert_eq!(fetch, ChunkFetch::Listening);
    let (fetch, _) = level.get_chunk(pos, fetch, None);
    level.insert_chunk(pos, 2);
    let (fetch, action) = level.get_chunk(pos, fetch, None);
    assert_eq!((fetch, action), (ChunkFetch::Releasing(2), FetchAction::RemoveForceTicket));
    // the chunk that came is handed out, though it has left again
    level.remove_chunk(pos);
    assert_eq!(
        level.get_chunk(pos, fetch, None),
        (ChunkFetch::Done(2), FetchAction::Finish(2))
    );
}

fn name(action: &ShutdownAction) -> &'static str {
    match action {
        ShutdownAction::NotifyWaiters => "notify waiters",
        ShutdownAction::CloseTasks => "close tasks",
        ShutdownAction::AwaitTasks => "await tasks",
        ShutdownAction::NotifyChunkSystem => "notify chunk system",
        ShutdownAction::JoinThreads => "join threads",
        ShutdownAction::CloseChunkSystemTasks => "close chunk system tasks",
        ShutdownAction::AwaitChunkSystemTasks => "await chunk system tasks",
        ShutdownAction::AwaitChunkSaver => "await chunk saver",
        ShutdownAction::AwaitEntitySaver => "await entity saver",
        ShutdownAction::ClearEntityWatches => "clear entity watches",
        ShutdownAction::WriteEntityChunks(_) => "write entity chunks",
        ShutdownAction::Finish => "finish",
    }
}

#[test]
fn shutdown_takes_its_steps_in_order_and_saves_everything() {
    let mut level = open();
    level.entity_chunk_arrived(LoadedData::Loaded(1, at(1, 0)), 0);
    level.entity_chunk_arrived(LoadedData::Loaded(2, at(2, 0)), 0);
    let mut phase = ShutdownPhase::Start;
    let mut names = Vec::new();
    let mut saved = Vec::new();
    loop {
        let (next, action) = level.shutdown(phase);
        assert!(level.is_shutting_down);
        names.push(name(&action));
        if matches!(action, ShutdownAction::AwaitTasks) {
            assert!(!level.shut_down_chunk_system);
        }
        if matches!(action, ShutdownAction::JoinThreads) {
            assert!(level.shut_down_chunk_system);
        }
        if matches!(action, ShutdownAction::Finish) {
            break;
        }
        if let ShutdownAction::WriteEntityChunks(request) = action {
            saved = request.unwrap().chunks;
        }
        phase = next;
    }
    assert_eq!(
        names,
        vec![
            "notify waiters",
            "close tasks",
            "await tasks",
            "notify chunk system",
            "join threads",
            "close chunk system tasks",
            "await chunk system tasks",
            "await chunk saver",
            "await entity saver",
            "clear entity watches",
            "write entity chunks",
            "finish",
        ]
    );
    saved.sort_by_key(|(_, handle)| *handle);
    assert_eq!(saved, vec![(at(1, 0), 1), (at(2, 0), 2)]);
    assert!(level.loaded_entity_chunk_handles().is_empty());
}

#[test]
fn shutdown_of_an_empty_level_saves_nothing() {
    let mut level = open();
    let (next, _) = level.shutdown(ShutdownPhase::EntitySaverIdle);
    let (next, action) = level.shutdown(next);
    assert!(matches!(action, ShutdownAction::WriteEntityChunks(None)));
    assert!(matches!(next, ShutdownPhase::Done));
}
