//! The state of a level.

use crate::blocks::{BiomeTable, BlockTable};
use crate::chunk_map::{self, entries, lists, lookup, queues, ChunkMap, QueueMap};
use crate::folder::LevelFolder;
use crate::math::Vector2;
use std::path::PathBuf;
use vstd::prelude::*;

verus! {

/// The number that a world is generated from.
#[derive(Clone, Copy, Debug, PartialEq, Eq, Structural)]
pub struct Seed(pub u64);

impl Seed {
    /// The seed for a signed number: negative numbers count down from the
    /// largest seed.
    pub open spec fn wrapped(seed: i64) -> Seed {
        if seed >= 0 {
            Seed(seed as u64)
        } else {
            Seed((seed + 0x1_0000_0000_0000_0000) as u64)
        }
    }

    /// The seed for a signed number.
    pub fn from_signed(seed: i64) -> (made: Seed)
        ensures
            made == Seed::wrapped(seed),
            (made.0 - seed) % 0x1_0000_0000_0000_0000 == 0,
    {
        let raw: u64 = #[verifier::truncate] (seed as u64);
        assert(seed < 0 ==> raw == seed + 0x1_0000_0000_0000_0000) by (bit_vector)
            requires
                raw == seed as u64,
        ;
        Seed(raw)
    }
}

/// A dimension, by the number under which the level's owner keeps what it is.
#[derive(Clone, Copy, Debug, PartialEq, Eq, Structural)]
pub struct Dimension(pub usize);

/// What the generator of a world is made from.
#[derive(Clone, Copy, Debug, PartialEq, Eq, Structural)]
pub struct WorldGen {
    pub seed: Seed,
    pub dimension: Dimension,
}

/// The format of the files that chunks are kept in, with the settings of that
/// format, by the number under which the level's owner keeps them.
#[derive(Clone, Copy, Debug, PartialEq, Eq, Structural)]
pub enum ChunkConfig {
    Linear(usize),
    Anvil(usize),
}

/// How a level is set up.
#[derive(Clone, Copy, Debug, PartialEq, Eq, Structural)]
pub struct LevelConfig {
    pub chunk: ChunkConfig,
}

/// A level: the chunks and entity chunks in memory, how many watch each chunk,
/// who waits for entity chunks, and how far the level is from its end.
///
/// The data of a chunk is kept by the level's owner, under a handle; the level
/// keeps the handles.
pub struct Level {
    pub seed: Seed,
    /// The handle of the registry of blocks.
    pub block_registry: usize,
    pub level_folder: LevelFolder,
    /// What the saver of chunks is made from.
    pub chunk_saver: ChunkConfig,
    /// What the saver of entity chunks is made from.
    pub entity_saver: ChunkConfig,
    pub world_gen: WorldGen,
    pub blocks: BlockTable,
    pub biomes: BiomeTable,
    pub is_shutting_down: bool,
    pub shut_down_chunk_system: bool,
    pub should_save: bool,
    pub should_unload: bool,
    /// Counts the number of ticks that have been scheduled for this world
    pub(crate) schedule_tick_counts: u64,
    pub(crate) loaded_chunks: ChunkMap,
    pub(crate) loaded_entity_chunks: ChunkMap,
    pub(crate) chunk_watchers: ChunkMap,
    pub(crate) pending_entity_generations: QueueMap,
}

/// What a level is, as plain values.
#[verifier::ext_equal]
pub struct LevelView {
    pub seed: Seed,
    pub block_registry: usize,
    pub level_folder: LevelFolder,
    pub chunk_saver: ChunkConfig,
    pub entity_saver: ChunkConfig,
    pub world_gen: WorldGen,
    pub blocks: BlockTable,
    pub biomes: BiomeTable,
    pub is_shutting_down: bool,
    pub shut_down_chunk_system: bool,
    pub should_save: bool,
    pub should_unload: bool,
    /// How many ticks have been scheduled, counted round at the largest number.
    pub tick_count: u64,
    /// The handles of the chunks in memory.
    pub loaded: Map<(i32, i32), usize>,
    /// The handles of the entity chunks in memory.
    pub loaded_entities: Map<(i32, i32), usize>,
    /// How many watch each chunk that is watched.
    pub watchers: Map<(i32, i32), usize>,
    /// Who waits for the entity chunks that are to be generated.
    pub pending: Map<(i32, i32), Seq<usize>>,
}

impl LevelView {
    /// The level as it is when it has just been opened.
    pub open spec fn opened(
        level_config: LevelConfig,
        root_folder: PathBuf,
        block_registry: usize,
        blocks: BlockTable,
        biomes: BiomeTable,
        seed: i64,
        dimension: Dimension,
    ) -> LevelView {
        LevelView {
            seed: Seed::wrapped(seed),
            block_registry,
            level_folder: LevelFolder::of_root(root_folder),
            chunk_saver: level_config.chunk,
            entity_saver: level_config.chunk,
            world_gen: WorldGen { seed: Seed::wrapped(seed), dimension },
            blocks,
            biomes,
            is_shutting_down: false,
            shut_down_chunk_system: false,
            should_save: false,
            should_unload: false,
            tick_count: 0,
            loaded: Map::empty(),
            loaded_entities: Map::empty(),
            watchers: Map::empty(),
            pending: Map::empty(),
        }
    }

    /// Whether the level can have come about: a watched chunk is watched by
    /// someone, and someone waits where there is a queue.
    pub open spec fn wf(self) -> bool {
        &&& forall|key: (i32, i32)| #[trigger]
            self.watchers.contains_key(key) ==> self.watchers[key] > 0
        &&& forall|key: (i32, i32)| #[trigger]
            self.pending.contains_key(key) ==> self.pending[key].len() > 0
    }
}

impl Level {
    /// What the level is.
    pub open(crate) spec fn view(&self) -> LevelView {
        LevelView {
            seed: self.seed,
            block_registry: self.block_registry,
            level_folder: self.level_folder,
            chunk_saver: self.chunk_saver,
            entity_saver: self.entity_saver,
            world_gen: self.world_gen,
            blocks: self.blocks,
            biomes: self.biomes,
            is_shutting_down: self.is_shutting_down,
            shut_down_chunk_system: self.shut_down_chunk_system,
            should_save: self.should_save,
            should_unload: self.should_unload,
            tick_count: self.schedule_tick_counts,
            loaded: entries(self.loaded_chunks),
            loaded_entities: entries(self.loaded_entity_chunks),
            watchers: entries(self.chunk_watchers),
            pending: queues(self.pending_entity_generations),
        }
    }

    /// Opens a level: nothing is in memory yet, nobody watches, and both kinds
    /// of chunks are kept in files of the configured format, with the settings
    /// that the configuration carries. The world is generated from the level's
    /// seed, for the given dimension.
    pub fn from_root_folder(
        level_config: &LevelConfig,
        root_folder: PathBuf,
        block_registry: usize,
        blocks: BlockTable,
        biomes: BiomeTable,
        seed: i64,
        dimension: Dimension,
    ) -> (level: Level)
        ensures
            level@ == LevelView::opened(
                *level_config,
                root_folder,
                block_registry,
                blocks,
                biomes,
                seed,
                dimension,
            ),
            level@.wf(),
            (level@.seed.0 - seed) % 0x1_0000_0000_0000_0000 == 0,
            level@.world_gen.seed == level@.seed,
            level@.world_gen.dimension == dimension,
    {
        let seed = Seed::from_signed(seed);
        Level {
            seed,
            block_registry,
            level_folder: LevelFolder::from_root(root_folder),
            chunk_saver: level_config.chunk,
            entity_saver: level_config.chunk,
            world_gen: WorldGen { seed, dimension },
            blocks,
            biomes,
            is_shutting_down: false,
            shut_down_chunk_system: false,
            should_save: false,
            should_unload: false,
            schedule_tick_counts: 0,
            loaded_chunks: chunk_map::new_map(),
            loaded_entity_chunks: chunk_map::new_map(),
            chunk_watchers: chunk_map::new_map(),
            pending_entity_generations: chunk_map::new_queues(),
        }
    }

    /// Puts a chunk into memory, in place of the one that was there, if any.
    pub fn insert_chunk(&mut self, pos: Vector2, handle: usize) -> (replaced: Option<usize>)
        ensures
            final(self)@ == (LevelView {
                loaded: old(self)@.loaded.insert(pos.key(), handle),
                ..old(self)@
            }),
            replaced == lookup(old(self)@.loaded, pos.key()),
            old(self)@.wf() ==> final(self)@.wf(),
    {
        chunk_map::insert(&mut self.loaded_chunks, pos.key(), handle)
    }

    /// Takes a chunk out of memory.
    pub fn remove_chunk(&mut self, pos: Vector2) -> (removed: Option<usize>)
        ensures
            final(self)@ == (LevelView {
                loaded: old(self)@.loaded.remove(pos.key()),
                ..old(self)@
            }),
            removed == lookup(old(self)@.loaded, pos.key()),
            old(self)@.wf() ==> final(self)@.wf(),
    {
        chunk_map::remove(&mut self.loaded_chunks, pos.key())
    }

    /// How many chunks are in memory.
    pub fn loaded_chunk_count(&self) -> (count: usize)
        ensures
            chunk_map::counts(self@.loaded, count),
            self@.loaded.dom().finite(),
            count == self@.loaded.len(),
    {
        chunk_map::len(&self.loaded_chunks)
    }

    /// The coordinates of the chunks in memory, each once, in some order.
    pub fn list_cached(&self) -> (cached: Vec<Vector2>)
        ensures
            forall|at: Vector2| #[trigger]
                cached@.contains(at) <==> self@.loaded.contains_key(at.key()),
            cached@.no_duplicates(),
    {
        let listed = chunk_map::to_vec(&self.loaded_chunks);
        let mut cached: Vec<Vector2> = Vec::new();
        let mut i: usize = 0;
        while i < listed.len()
            invariant
                i <= listed@.len(),
                cached@ == listed@.take(i as int).map_values(
                    |entry: ((i32, i32), usize)| Vector2::from_key(entry.0),
                ),
            decreases listed@.len() - i,
        {
            cached.push(Vector2::from_key(listed[i].0));
            i += 1;
            assert(listed@.take(i as int).drop_last() =~= listed@.take(i - 1));
        }
        assert(listed@.take(i as int) =~= listed@);
        proof {
            assert forall|at: Vector2| #[trigger]
                cached@.contains(at) <==> self@.loaded.contains_key(at.key()) by {
                if cached@.contains(at) {
                    let k = choose|k: int| 0 <= k < cached@.len() && cached@[k] == at;
                    assert(lookup(self@.loaded, listed@[k].0) == Some(listed@[k].1));
                }
                if self@.loaded.contains_key(at.key()) {
                    let entry = (at.key(), self@.loaded[at.key()]);
                    assert(listed@.contains(entry));
                    let k = choose|k: int| 0 <= k < listed@.len() && listed@[k] == entry;
                    assert(cached@[k] == at);
                }
            }
            assert forall|i: int, j: int| 0 <= i < j < cached@.len() implies cached@[i]
                != cached@[j] by {
                assert(listed@[i].0 != listed@[j].0);
            }
        }
        cached
    }

    /// The handles of the chunks in memory, with their coordinates, each once,
    /// in some order.
    pub fn loaded_chunk_handles(&self) -> (listed: Vec<((i32, i32), usize)>)
        ensures
            lists(listed@, self@.loaded),
    {
        chunk_map::to_vec(&self.loaded_chunks)
    }

    /// The handle of a chunk, if it is in memory.
    pub fn try_get_chunk(&self, coordinates: &Vector2) -> (found: Option<usize>)
        ensures
            found == lookup(self@.loaded, coordinates.key()),
    {
        chunk_map::get(&self.loaded_chunks, coordinates.key())
    }
}

/// A level that has just been opened has the seed that stands for the given
/// number modulo two to the sixty-fourth, its world is generated from that very
/// seed and for the given dimension, both savers are made from what the
/// configuration carries, and nothing has happened yet.
pub proof fn law_opened_level_is_set_up_as_asked(
    level_config: LevelConfig,
    root_folder: PathBuf,
    block_registry: usize,
    blocks: BlockTable,
    biomes: BiomeTable,
    seed: i64,
    dimension: Dimension,
    level: LevelView,
)
    requires
        level == LevelView::opened(
            level_config,
            root_folder,
            block_registry,
            blocks,
            biomes,
            seed,
            dimension,
        ),
    ensures
        (level.seed.0 - seed) % 0x1_0000_0000_0000_0000 == 0,
        level.world_gen.seed == level.seed,
        level.world_gen.dimension == dimension,
        level.chunk_saver == level_config.chunk,
        level.entity_saver == level_config.chunk,
        level.level_folder.root_folder == root_folder,
        level.level_folder.region_folder == crate::folder::joined(root_folder, "region"@),
        level.level_folder.entities_folder == crate::folder::joined(root_folder, "entities"@),
        level.block_registry == block_registry,
        level.blocks == blocks,
        level.biomes == biomes,
        !level.is_shutting_down && !level.shut_down_chunk_system,
        !level.should_save && !level.should_unload,
        level.tick_count == 0,
        forall|key: (i32, i32)| !#[trigger] level.loaded.contains_key(key),
        forall|key: (i32, i32)| !#[trigger] level.loaded_entities.contains_key(key),
        forall|key: (i32, i32)| !#[trigger] level.watchers.contains_key(key),
        forall|key: (i32, i32)| !#[trigger] level.pending.contains_key(key),
{
}

/// Different numbers give different seeds.
pub proof fn law_seed_tells_the_number(a: i64, b: i64)
    requires
        Seed::wrapped(a) == Seed::wrapped(b),
    ensures
        a == b,
{
}

/// What a level is shows what its fields hold.
pub(crate) proof fn law_view_shows_the_fields(level: Level)
    ensures
        level@.seed == level.seed,
        level@.block_registry == level.block_registry,
        level@.level_folder == level.level_folder,
        level@.chunk_saver == level.chunk_saver,
        level@.entity_saver == level.entity_saver,
        level@.world_gen == level.world_gen,
        level@.blocks == level.blocks,
        level@.biomes == level.biomes,
        level@.is_shutting_down == level.is_shutting_down,
        level@.shut_down_chunk_system == level.shut_down_chunk_system,
        level@.should_save == level.should_save,
        level@.should_unload == level.should_unload,
        level@.tick_count == level.schedule_tick_counts,
        level@.loaded == entries(level.loaded_chunks),
        level@.loaded_entities == entries(level.loaded_entity_chunks),
        level@.watchers == entries(level.chunk_watchers),
        level@.pending == queues(level.pending_entity_generations),
{
}

} // verus!
