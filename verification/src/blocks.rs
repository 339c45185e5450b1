//! What a level does with the blocks and biomes that it finds in its chunks.

use crate::level::Level;
use crate::math::{BlockPos, Vector2};
use vstd::prelude::*;

verus! {

/// The number of a block state.
pub type BlockStateId = u16;

/// A block state, by its number alone.
#[derive(Clone, Copy, Debug, PartialEq, Eq, Structural)]
pub struct RawBlockState(pub BlockStateId);

/// What the level knows of block states: which of them stand for air and for
/// the air outside the world, and which of them tick at random.
pub struct BlockTable {
    pub air: BlockStateId,
    pub void_air: BlockStateId,
    /// Whether a block state ticks at random, by its number. States beyond the
    /// end do not.
    pub random_ticks: Vec<bool>,
}

impl BlockTable {
    /// Whether the block state ticks at random.
    pub open spec fn ticks_randomly(&self, id: BlockStateId) -> bool {
        id < self.random_ticks@.len() && self.random_ticks@[id as int]
    }

    /// Whether the block state ticks at random.
    pub fn has_random_ticks(&self, id: BlockStateId) -> (ticks: bool)
        ensures
            ticks == self.ticks_randomly(id),
    {
        let index: usize = id as usize;
        index < self.random_ticks.len() && self.random_ticks[index]
    }
}

/// Where to look a block up: its chunk, and its place in the chunk's sections.
#[derive(Clone, Copy, Debug, PartialEq, Eq, Structural)]
pub struct SectionPlace {
    pub chunk: Vector2,
    pub x: usize,
    pub y: i32,
    pub z: usize,
}

impl SectionPlace {
    /// Whether this is where the block at a position is looked up.
    pub open spec fn is_place_of(self, position: BlockPos) -> bool {
        &&& self.chunk == position.chunk()
        &&& self.x == position.relative().x
        &&& self.y == position.relative().y
        &&& self.z == position.relative().z
    }

    /// Where the block at a position is looked up.
    pub fn of(position: &BlockPos) -> (place: SectionPlace)
        ensures
            place.is_place_of(*position),
            place.x < 16,
            place.z < 16,
    {
        let (chunk, relative) = position.chunk_and_chunk_relative_position();
        SectionPlace { chunk, x: relative.x as usize, y: relative.y, z: relative.z as usize }
    }
}

/// Which biomes there are.
pub struct BiomeTable {
    /// Whether there is a biome with a number. There are none beyond the end.
    pub known: Vec<bool>,
}

impl BiomeTable {
    /// Whether there is a biome with this number.
    pub open spec fn spec_has(&self, id: u8) -> bool {
        id < self.known@.len() && self.known@[id as int]
    }

    /// Whether there is a biome with this number.
    #[verifier::when_used_as_spec(spec_has)]
    pub fn has(&self, id: u8) -> (known: bool)
        ensures
            known == self.spec_has(id),
    {
        let index: usize = id as usize;
        index < self.known.len() && self.known[index]
    }
}

/// The biome of a place.
#[derive(Clone, Copy, Debug, PartialEq, Eq, Structural)]
pub enum RoughBiome {
    /// The biome outside the world.
    TheVoid,
    /// The biome with this number.
    Numbered(u8),
}

/// What setting a block did.
#[derive(Clone, Copy, Debug, PartialEq, Eq, Structural)]
pub struct BlockChange {
    /// The block state that was there before.
    pub replaced: BlockStateId,
    /// Whether the chunk is to be marked as changed since it was saved.
    pub mark_dirty: bool,
}

impl Level {
    /// The block state at a position, from what was found at its place in its
    /// chunk: where there is nothing, it is the air outside the world.
    pub fn get_block_state(&self, found: Option<BlockStateId>) -> (state: RawBlockState)
        ensures
            state == RawBlockState(
                match found {
                    Some(id) => id,
                    None => self@.blocks.void_air,
                },
            ),
    {
        let Some(id) = found else {
            return RawBlockState(self.blocks.void_air);
        };
        RawBlockState(id)
    }

    /// The biome at a position, from what was found at its place in its chunk:
    /// where there is nothing, it is the biome outside the world. A number that
    /// was found must be that of a biome.
    pub fn get_rough_biome(&self, found: Option<u8>) -> (biome: RoughBiome)
        requires
            found matches Some(id) ==> self@.biomes.has(id),
        ensures
            biome == (match found {
                Some(id) => RoughBiome::Numbered(id),
                None => RoughBiome::TheVoid,
            }),
    {
        let Some(id) = found else {
            return RoughBiome::TheVoid;
        };
        RoughBiome::Numbered(id)
    }

    /// What setting a block did, from the block state that it replaced: the
    /// chunk has changed if the two are not the same.
    pub fn set_block_state(replaced: BlockStateId, block_state_id: BlockStateId) -> (change:
        BlockChange)
        ensures
            change.replaced == replaced,
            change.mark_dirty <==> replaced != block_state_id,
    {
        BlockChange { replaced, mark_dirty: replaced != block_state_id }
    }
}

/// A block is looked up where it is: the chunk's corner and the place in the
/// chunk's sections give back its position.
pub proof fn law_block_is_looked_up_where_it_is(place: SectionPlace, position: BlockPos)
    requires
        place.is_place_of(position),
    ensures
        place.chunk.x * 16 + place.x == position.0.x,
        place.y == position.0.y,
        place.chunk.y * 16 + place.z == position.0.z,
        place.x < 16,
        place.z < 16,
{
    crate::math::law_position_is_chunk_corner_plus_offset(position);
}

/// A block state ticks at random just if the table says so under its number.
pub proof fn law_random_ticks_go_by_the_table(table: BlockTable, id: BlockStateId)
    ensures
        id < table.random_ticks@.len() ==> table.ticks_randomly(id)
            == table.random_ticks@[id as int],
        id >= table.random_ticks@.len() ==> !table.ticks_randomly(id),
{
}

/// There is a biome with a number just if the table says so under that number.
pub proof fn law_biomes_go_by_the_table(table: BiomeTable, id: u8)
    ensures
        id < table.known@.len() ==> table.has(id) == table.known@[id as int],
        id >= table.known@.len() ==> !table.has(id),
{
}

} // verus!
