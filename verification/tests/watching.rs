use pumpkin_world::blocks::{BiomeTable, BlockTable};
use pumpkin_world::cleaning::{CleaningAction, CleaningPhase};
use pumpkin_world::entity::{EntityChunkStep, LoadedData};
use pumpkin_world::level::{ChunkConfig, Dimension, Level, LevelConfig};
use pumpkin_world::math::Vector2;
use pumpkin_world::memory::has_spare_room;
use std::path::PathBuf;

fn open() -> Level {
    let blocks = BlockTable {
        air: 0,
        void_air: 9,
        random_ticks: Vec::new(),
    };
    let biomes = BiomeTable {
        known: Vec::new(),
    };
    let config = LevelConfig {
        chunk: ChunkConfig::Anvil(4),
    };
    Level::from_root_folder(&config, PathBuf::from("world"), 0, blocks, biomes, 0, Dimension(0))
}

fn at(x: i32, z: i32) -> Vector2 {
    Vector2::new(x, z)
}

/// Puts an entity chunk into memory.
fn load(level: &mut Level, pos: Vector2, handle: usize) {
    let fetched = Some(LoadedData::Loaded(handle, pos));
    let (step, replaced) = level.entity_chunk_fetched(pos, fetched, 0);
    assert_eq!(step, EntityChunkStep::Ready(handle));
    assert_eq!(replaced, None);
}

#[test]
fn chunk_is_watched_until_the_last_player_leaves() {
    let mut level = open();
    level.mark_chunks_as_newly_watched(&[at(0, 0), at(0, 1)]);
    level.mark_chunks_as_newly_watched(&[at(0, 1)]);
    assert!(level.is_chunk_watched(&at(0, 0)));
    assert!(!level.is_chunk_watched(&at(1, 0)));
    assert_eq!(level.mark_chunks_as_not_watched(&[at(0, 0), at(0, 1)]), vec![at(0, 0)]);
    assert!(!level.is_chunk_watched(&at(0, 0)));
    assert!(level.is_chunk_watched(&at(0, 1)));
    assert!(level.mark_chunk_as_not_watched(at(0, 1)));
    assert!(!level.is_chunk_watched(&at(0, 1)));
}

#[test]
fn chunks_are_handed_back_in_the_order_in_which_they_are_left() {
    let mut level = open();
    level.mark_chunks_as_newly_watched(&[at(1, 1), at(2, 2), at(1, 1), at(3, 3)]);
    let left = level.mark_chunks_as_not_watched(&[at(1, 1), at(3, 3), at(1, 1), at(2, 2), at(1, 1)]);
    assert_eq!(left, vec![at(3, 3), at(1, 1), at(2, 2)]);
}

#[test]
fn leaving_an_unwatched_chunk_does_nothing() {
    let mut level = open();
    assert!(level.mark_chunks_as_not_watched(&[at(5, 5)]).is_empty());
    assert!(!level.mark_chunk_as_not_watched(at(5, 5)));
    level.mark_chunks_as_newly_watched(&[at(5, 5)]);
    assert!(level.mark_chunk_as_not_watched(at(5, 5)));
}

#[test]
fn watching_and_leaving_changes_nothing() {
    let mut level = open();
    level.mark_chunks_as_newly_watched(&[at(1, 0)]);
    let chunks = [at(1, 0), at(2, 0), at(2, 0)];
    level.mark_chunks_as_newly_watched(&chunks);
    level.mark_chunks_as_not_watched(&chunks);
    assert!(!level.is_chunk_watched(&at(2, 0)));
    assert!(level.mark_chunk_as_not_watched(at(1, 0)));
}

#[test]
fn order_of_watching_does_not_matter() {
    let mut level = open();
    level.mark_chunks_as_newly_watched(&[at(1, 0), at(2, 0), at(1, 0)]);
    let mut other = open();
    other.mark_chunks_as_newly_watched(&[at(1, 0), at(1, 0), at(2, 0)]);
    let leaving = [at(2, 0), at(1, 0), at(1, 0)];
    assert_eq!(
        level.mark_chunks_as_not_watched(&leaving),
        other.mark_chunks_as_not_watched(&leaving)
    );
}

#[test]
fn only_unwatched_entity_chunks_in_memory_are_cleaned() {
    let mut level = open();
    load(&mut level, at(0, 0), 7);
    load(&mut level, at(0, 1), 8);
    level.mark_chunks_as_newly_watched(&[at(0, 1)]);
    let to_clean = level.clean_entity_chunks(&[at(0, 1), at(0, 0), at(4, 4), at(0, 0)]);
    assert_eq!(to_clean, vec![(at(0, 0), 7), (at(0, 0), 7)]);
    assert_eq!(level.clean_entity_chunk(&at(0, 1)), Vec::new());
    assert_eq!(level.clean_entity_chunk(&at(0, 0)), vec![(at(0, 0), 7)]);
    // still there while it is being saved
    assert_eq!(level.get_entity_chunk(at(0, 0)), EntityChunkStep::Ready(7));
    assert_eq!(level.finish_cleaning(&to_clean), vec![7]);
    assert_eq!(level.get_entity_chunk(at(0, 0)), EntityChunkStep::Fetch);
    assert_eq!(level.get_entity_chunk(at(0, 1)), EntityChunkStep::Ready(8));
    assert_eq!(level.finish_cleaning(&to_clean), Vec::new());
}

/// Begins a cleaning of chunks: the phase, and the chunks asked to be written.
fn begin_cleaning(level: &mut Level, chunks: Vec<Vector2>) -> (CleaningPhase, Vec<(Vector2, usize)>) {
    let (phase, action) = level.step_cleaning(CleaningPhase::Start(chunks));
    match action {
        CleaningAction::Write(Some(request)) => {
            assert_eq!(request.format, ChunkConfig::Anvil(4));
            assert_eq!(request.level_folder.root_folder, PathBuf::from("world"));
            (phase, request.chunks)
        }
        CleaningAction::Write(None) => (phase, Vec::new()),
        _ => panic!("a cleaning begins with writing"),
    }
}

#[test]
fn cleaning_writes_first_and_releases_after() {
    let mut level = open();
    load(&mut level, at(0, 0), 7);
    load(&mut level, at(0, 1), 8);
    load(&mut level, at(0, 2), 9);
    level.mark_chunks_as_newly_watched(&[at(0, 1)]);
    let (phase, written) = begin_cleaning(&mut level, vec![at(0, 2), at(0, 1), at(0, 0)]);
    assert_eq!(written, vec![(at(0, 2), 9), (at(0, 0), 7)]);
    // all are in memory while they are being written
    assert_eq!(level.get_entity_chunk(at(0, 0)), EntityChunkStep::Ready(7));
    assert_eq!(level.get_entity_chunk(at(0, 1)), EntityChunkStep::Ready(8));
    assert_eq!(level.get_entity_chunk(at(0, 2)), EntityChunkStep::Ready(9));
    level.mark_chunks_as_newly_watched(&[at(0, 2)]);
    let (phase, action) = level.step_cleaning(phase);
    match action {
        CleaningAction::Release(handles) => assert_eq!(handles, vec![7]),
        _ => panic!("what was written is released"),
    }
    assert_eq!(level.get_entity_chunk(at(0, 0)), EntityChunkStep::Fetch);
    assert_eq!(level.get_entity_chunk(at(0, 2)), EntityChunkStep::Ready(9));
    let (phase, action) = level.step_cleaning(phase);
    assert!(matches!(action, CleaningAction::Finish));
    assert!(matches!(phase, CleaningPhase::Done));
}

#[test]
fn chunk_put_in_place_during_the_writing_leaves_with_its_own_handle() {
    let mut level = open();
    load(&mut level, at(0, 0), 7);
    let (phase, written) = begin_cleaning(&mut level, vec![at(0, 0)]);
    assert_eq!(written, vec![(at(0, 0), 7)]);
    level.entity_chunk_arrived(LoadedData::Loaded(12, at(0, 0)), 0);
    assert_eq!(level.get_entity_chunk(at(0, 0)), EntityChunkStep::Ready(12));
    match level.step_cleaning(phase).1 {
        CleaningAction::Release(handles) => assert_eq!(handles, vec![12]),
        _ => panic!("what was written is released"),
    }
}

#[test]
fn cleaning_of_nothing_writes_nothing() {
    let mut level = open();
    load(&mut level, at(0, 0), 7);
    let (phase, written) = begin_cleaning(&mut level, vec![at(3, 3)]);
    assert!(written.is_empty());
    match level.step_cleaning(phase).1 {
        CleaningAction::Release(handles) => assert!(handles.is_empty()),
        _ => panic!("nothing is released"),
    }
    assert_eq!(level.get_entity_chunk(at(0, 0)), EntityChunkStep::Ready(7));
}

#[test]
fn chunk_that_is_watched_again_stays() {
    let mut level = open();
    load(&mut level, at(3, 3), 1);
    load(&mut level, at(4, 4), 2);
    let to_clean = level.clean_entity_chunks(&[at(3, 3), at(4, 4)]);
    assert_eq!(to_clean.len(), 2);
    level.mark_chunks_as_newly_watched(&[at(3, 3)]);
    assert_eq!(level.finish_cleaning(&to_clean), vec![2]);
    assert_eq!(level.try_get_entity_chunk(at(3, 3)), Some(1));
    assert_eq!(level.try_get_entity_chunk(at(4, 4)), None);
}

#[test]
fn chunks_left_alone_leave_memory() {
    let mut level = open();
    let chunks = [at(0, 0), at(1, 0), at(2, 0)];
    level.mark_chunks_as_newly_watched(&chunks);
    level.mark_chunks_as_newly_watched(&[at(1, 0)]);
    for (handle, pos) in chunks.iter().enumerate() {
        load(&mut level, *pos, handle);
    }
    let alone = level.mark_chunks_as_not_watched(&chunks);
    assert_eq!(alone, vec![at(0, 0), at(2, 0)]);
    let to_clean = level.clean_entity_chunks(&alone);
    assert_eq!(level.finish_cleaning(&to_clean), vec![0, 2]);
    assert_eq!(level.loaded_entity_chunk_handles(), vec![((1, 0), 1)]);
}

#[test]
fn cleaning_memory_keeps_what_is_watched() {
    let mut level = open();
    load(&mut level, at(0, 0), 0);
    load(&mut level, at(9, 9), 1);
    level.mark_chunks_as_newly_watched(&[at(9, 9), at(8, 8)]);
    level.clean_memory();
    assert_eq!(level.loaded_entity_chunk_handles(), vec![((9, 9), 1)]);
    assert!(level.is_chunk_watched(&at(8, 8)));
    level.clean_memory();
    assert_eq!(level.loaded_entity_chunk_handles(), vec![((9, 9), 1)]);
}

#[test]
fn watched_chunk_is_found_after_memory_is_cleaned() {
    let mut level = open();
    load(&mut level, at(0, 0), 3);
    load(&mut level, at(1, 0), 4);
    level.mark_chunks_as_newly_watched(&[at(0, 0)]);
    level.clean_memory();
    assert_eq!(level.try_get_entity_chunk(at(0, 0)), Some(3));
    assert_eq!(level.try_get_entity_chunk(at(1, 0)), None);
    assert!(level.is_chunk_watched(&at(0, 0)));
}

#[test]
fn few_watchers_can_be_counted() {
    let mut level = open();
    let chunks = [at(0, 0), at(0, 0), at(1, 0)];
    assert!(level.chunks_past_counting(&chunks).is_empty());
    level.mark_chunks_as_newly_watched(&chunks);
    assert!(level.chunks_past_counting(&chunks).is_empty());
    assert!(level.chunks_past_counting(&[]).is_empty());
}

#[test]
fn large_maps_are_shrunk_without_loss() {
    let mut level = open();
    let many: Vec<Vector2> = (0..20000).map(|x| at(x, -x)).collect();
    level.mark_chunks_as_newly_watched(&many);
    for (handle, pos) in many.iter().enumerate() {
        load(&mut level, *pos, handle);
    }
    assert_eq!(level.mark_chunks_as_not_watched(&many[5..]).len(), 19995);
    level.clean_memory();
    let mut left = level.loaded_entity_chunk_handles();
    left.sort();
    let expected: Vec<((i32, i32), usize)> = (0..5).map(|x| ((x, -x), x as usize)).collect();
    assert_eq!(left, expected);
    assert!(level.is_chunk_watched(&at(4, -4)));
    assert!(!level.is_chunk_watched(&at(5, -5)));
}

#[test]
fn spare_room_is_counted() {
    assert!(!has_spare_room(4095, 0));
    assert!(has_spare_room(4096, 0));
    assert!(!has_spare_room(5000, 905));
    assert!(has_spare_room(5000, 904));
}

#[test]
fn nothing_is_saved_where_there_is_nothing() {
    let level = open();
    assert!(level.write_chunks(Vec::new()).is_none());
    assert!(level.write_entity_chunks(Vec::new()).is_none());
}

#[test]
fn chunks_are_saved_in_the_folder_of_the_level() {
    let mut level = open();
    level.entity_saver = ChunkConfig::Linear(3);
    let request = level.write_chunks(vec![(at(1, 2), 3)]).unwrap();
    assert_eq!(request.chunks, vec![(at(1, 2), 3)]);
    assert_eq!(request.format, ChunkConfig::Anvil(4));
    assert_eq!(request.level_folder.root_folder, PathBuf::from("world"));
    let request = level.write_entity_chunks(vec![(at(4, 5), 6), (at(7, 8), 9)]).unwrap();
    assert_eq!(request.chunks, vec![(at(4, 5), 6), (at(7, 8), 9)]);
    assert_eq!(request.format, ChunkConfig::Linear(3));
}

#[test]
fn order_of_leaving_does_not_matter() {
    let mut level = open();
    let mut other = open();
    let coming = [at(1, 0), at(1, 0), at(2, 0), at(3, 0)];
    level.mark_chunks_as_newly_watched(&coming);
    other.mark_chunks_as_newly_watched(&coming);
    level.mark_chunks_as_not_watched(&[at(1, 0), at(2, 0)]);
    other.mark_chunks_as_not_watched(&[at(2, 0), at(1, 0)]);
    for chunk in [at(1, 0), at(2, 0), at(3, 0)] {
        assert_eq!(level.is_chunk_watched(&chunk), other.is_chunk_watched(&chunk));
    }
    assert_eq!(level.mark_chunks_as_not_watched(&coming), vec![at(1, 0), at(3, 0)]);
    assert_eq!(other.mark_chunks_as_not_watched(&coming), vec![at(1, 0), at(3, 0)]);
}
