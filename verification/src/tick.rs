//! Ticks: those that were scheduled, and those that happen at random.

use crate::blocks::{BlockStateId, BlockTable};
use crate::level::{Level, LevelView};
use crate::math::{BlockPos, Vector2, Vector3};
use rand::rngs::SmallRng;
use rand::{Rng, SeedableRng};
use vstd::prelude::*;

verus! {

/// How many blocks of each section of a chunk are tried for a random tick.
pub const RANDOM_TICKS_PER_SECTION: usize = 3;

/// How urgent a tick is, the most urgent first.
#[derive(Clone, Copy, Debug, PartialEq, Eq, Structural)]
pub enum TickPriority {
    ExtremelyHigh,
    VeryHigh,
    High,
    Normal,
    Low,
    VeryLow,
    ExtremelyLow,
}

impl TickPriority {
    /// The place of the priority among the priorities.
    pub open spec fn spec_rank(self) -> u8 {
        match self {
            TickPriority::ExtremelyHigh => 0,
            TickPriority::VeryHigh => 1,
            TickPriority::High => 2,
            TickPriority::Normal => 3,
            TickPriority::Low => 4,
            TickPriority::VeryLow => 5,
            TickPriority::ExtremelyLow => 6,
        }
    }

    /// The place of the priority among the priorities.
    #[verifier::when_used_as_spec(spec_rank)]
    pub fn rank(self) -> (rank: u8)
        ensures
            rank == self.spec_rank(),
    {
        match self {
            TickPriority::ExtremelyHigh => 0,
            TickPriority::VeryHigh => 1,
            TickPriority::High => 2,
            TickPriority::Normal => 3,
            TickPriority::Low => 4,
            TickPriority::VeryLow => 5,
            TickPriority::ExtremelyLow => 6,
        }
    }
}

/// A tick that is to happen after a delay.
#[derive(Debug, PartialEq, Eq)]
pub struct ScheduledTick<T> {
    pub delay: u8,
    pub priority: TickPriority,
    pub position: BlockPos,
    pub value: T,
}

/// A tick that is due. Ticks happen by priority, and within a priority in the
/// order in which they were scheduled. `value` is the number of the block or
/// the fluid that ticks.
#[derive(Clone, Copy, Debug, PartialEq, Eq, Structural)]
pub struct OrderedTick {
    pub priority: TickPriority,
    pub sub_tick_order: u64,
    pub position: BlockPos,
    pub value: u16,
}

impl OrderedTick {
    /// Whether this tick may happen before the other.
    pub open spec fn spec_not_after(self, other: OrderedTick) -> bool {
        self.priority.rank() < other.priority.rank() || self.priority.rank()
            == other.priority.rank() && self.sub_tick_order <= other.sub_tick_order
    }

    /// Whether this tick may happen before the other.
    #[verifier::when_used_as_spec(spec_not_after)]
    pub fn not_after(self, other: OrderedTick) -> (first: bool)
        ensures
            first == self.spec_not_after(other),
    {
        let mine = self.priority.rank();
        let others = other.priority.rank();
        mine < others || mine == others && self.sub_tick_order <= other.sub_tick_order
    }
}

/// Whether ticks are in the order in which they happen.
pub open spec fn in_order(ticks: Seq<OrderedTick>) -> bool {
    forall|i: int, j: int|
        0 <= i < j < ticks.len() ==> (#[trigger] ticks[i]).not_after(#[trigger] ticks[j])
}

/// Merges two lists of ticks that are in order into one that is.
fn merge(a: &Vec<OrderedTick>, b: &Vec<OrderedTick>) -> (merged: Vec<OrderedTick>)
    requires
        in_order(a@),
        in_order(b@),
    ensures
        in_order(merged@),
        merged@.to_multiset() == a@.to_multiset().add(b@.to_multiset()),
{
    broadcast use vstd::seq_lib::group_to_multiset_ensures;

    let mut merged: Vec<OrderedTick> = Vec::new();
    let mut i: usize = 0;
    let mut j: usize = 0;
    assert(merged@.to_multiset() =~= a@.take(0).to_multiset().add(b@.take(0).to_multiset()));
    while i < a.len() || j < b.len()
        invariant
            i <= a@.len(),
            j <= b@.len(),
            in_order(a@),
            in_order(b@),
            in_order(merged@),
            forall|k: int, l: int|
                0 <= k < merged@.len() && i <= l < a@.len() ==> (
                #[trigger] merged@[k]).not_after(#[trigger] a@[l]),
            forall|k: int, l: int|
                0 <= k < merged@.len() && j <= l < b@.len() ==> (
                #[trigger] merged@[k]).not_after(#[trigger] b@[l]),
            merged@.to_multiset() == a@.take(i as int).to_multiset().add(
                b@.take(j as int).to_multiset(),
            ),
        decreases a@.len() - i + b@.len() - j,
    {
        broadcast use vstd::seq_lib::group_to_multiset_ensures;

        if j >= b.len() || i < a.len() && a[i].not_after(b[j]) {
            merged.push(a[i]);
            i += 1;
            assert(a@.take(i as int) =~= a@.take(i - 1).push(a@[i - 1]));
        } else {
            merged.push(b[j]);
            j += 1;
            assert(b@.take(j as int) =~= b@.take(j - 1).push(b@[j - 1]));
        }
        assert(merged@.to_multiset() =~= a@.take(i as int).to_multiset().add(
            b@.take(j as int).to_multiset(),
        ));
    }
    assert(a@.take(i as int) =~= a@);
    assert(b@.take(j as int) =~= b@);
    merged
}

/// Puts ticks in the order in which they happen.
pub fn sort_ticks(ticks: Vec<OrderedTick>) -> (sorted: Vec<OrderedTick>)
    ensures
        in_order(sorted@),
        sorted@.to_multiset() == ticks@.to_multiset(),
    decreases ticks@.len(),
{
    if ticks.len() < 2 {
        return ticks;
    }
    let middle: usize = ticks.len() / 2;
    let mut front = ticks;
    let back = front.split_off(middle);
    assert(ticks@ =~= front@ + back@);
    proof {
        vstd::seq_lib::lemma_multiset_commutative(front@, back@);
    }
    let front = sort_ticks(front);
    let back = sort_ticks(back);
    merge(&front, &back)
}

/// The small generator of random numbers of the `rand` crate.
#[verifier::external_type_specification]
#[verifier::external_body]
pub struct ExSmallRng(SmallRng);

/// Calls [`SmallRng::from_rng`](SeedableRng::from_rng) on the generator that
/// [`rand::rng`] gives. Nothing is stated of what it will draw.
#[verifier::external_body]
fn new_generator() -> (generator: SmallRng) {
    SmallRng::from_rng(&mut rand::rng())
}

/// Calls [`Rng::random`], which draws a number. Nothing is stated of it: any
/// number can come.
#[verifier::external_body]
fn draw(generator: &mut SmallRng) -> (word: u32) {
    generator.random::<u32>()
}

/// Whether the blocks of a chunk have coordinates: the chunk's corner and the
/// opposite one lie within the range of block coordinates.
pub open spec fn chunk_has_coordinates(chunk: Vector2) -> bool {
    &&& i32::MIN <= chunk.x * 16
    &&& chunk.x * 16 + 15 <= i32::MAX
    &&& i32::MIN <= chunk.y * 16
    &&& chunk.y * 16 + 15 <= i32::MAX
}

/// The block of a section that a drawn number picks: the four lowest bits of
/// the number give its place along x, the next four its height, the next four
/// its place along z. Sections are numbered from the one whose lowest blocks
/// have height -32.
pub open spec fn spec_random_position(chunk: Vector2, section: int, word: u32) -> BlockPos {
    BlockPos(
        Vector3 {
            x: (chunk.x * 16 + word as int % 16) as i32,
            y: (section * 16 + word as int / 16 % 16 - 32) as i32,
            z: (chunk.y * 16 + word as int / 256 % 16) as i32,
        },
    )
}

/// The block of a section that a drawn number picks.
pub fn random_position(chunk: Vector2, section: usize, word: u32) -> (position: BlockPos)
    requires
        chunk_has_coordinates(chunk),
        section * 16 <= i32::MAX,
    ensures
        position == spec_random_position(chunk, section as int, word),
{
    assert(word & 0xF == word % 16 && (word >> 4) & 0xF == word / 16 % 16 && (word >> 8) & 0xF
        == word / 256 % 16) by (bit_vector);
    let x_offset: i32 = (word & 0xF) as i32;
    let y_offset: i32 = ((word >> 4) & 0xF) as i32 - 32;
    let z_offset: i32 = ((word >> 8) & 0xF) as i32;
    BlockPos::new(chunk.x * 16 + x_offset, section as i32 * 16 + y_offset, chunk.y * 16 + z_offset)
}

/// The blocks of a chunk that drawn numbers pick, [`RANDOM_TICKS_PER_SECTION`]
/// of each section.
pub open spec fn spec_random_positions(chunk: Vector2, words: Seq<u32>) -> Seq<BlockPos> {
    Seq::new(words.len(), |k: int| spec_random_position(chunk, k / 3, words[k]))
}

/// The blocks of a chunk that drawn numbers pick, [`RANDOM_TICKS_PER_SECTION`]
/// of each section.
pub fn random_positions(chunk: Vector2, sections: usize, words: &Vec<u32>) -> (positions: Vec<
    BlockPos,
>)
    requires
        chunk_has_coordinates(chunk),
        sections * 16 <= i32::MAX,
        words@.len() == sections * 3,
    ensures
        positions@ == spec_random_positions(chunk, words@),
{
    let mut positions: Vec<BlockPos> = Vec::new();
    let mut section: usize = 0;
    while section < sections
        invariant
            chunk_has_coordinates(chunk),
            sections * 16 <= i32::MAX,
            words@.len() == sections * 3,
            section <= sections,
            positions@.len() == section * 3,
            forall|k: int|
                0 <= k < positions@.len() ==> #[trigger] positions@[k] == spec_random_position(
                    chunk,
                    k / 3,
                    words@[k],
                ),
        decreases sections - section,
    {
        let mut tried: usize = 0;
        while tried < RANDOM_TICKS_PER_SECTION
            invariant
                chunk_has_coordinates(chunk),
                sections * 16 <= i32::MAX,
                words@.len() == sections * 3,
                section < sections,
                tried <= 3,
                positions@.len() == section * 3 + tried,
                forall|k: int|
                    0 <= k < positions@.len() ==> #[trigger] positions@[k]
                        == spec_random_position(chunk, k / 3, words@[k]),
            decreases 3 - tried,
        {
            let word: u32 = words[section * RANDOM_TICKS_PER_SECTION + tried];
            positions.push(random_position(chunk, section, word));
            tried += 1;
        }
        section += 1;
    }
    assert(positions@ =~= spec_random_positions(chunk, words@));
    positions
}

/// Picks the blocks to try for random ticks.
pub struct TickSampler {
    generator: SmallRng,
}

impl TickSampler {
    /// A sampler whose picks cannot be foretold.
    pub fn new() -> (sampler: TickSampler) {
        TickSampler { generator: new_generator() }
    }

    /// Picks [`RANDOM_TICKS_PER_SECTION`] blocks of each section of a chunk.
    /// They are the blocks that some numbers pick.
    pub fn sample(&mut self, chunk: Vector2, sections: usize) -> (positions: Vec<BlockPos>)
        requires
            chunk_has_coordinates(chunk),
            sections * 16 <= i32::MAX,
        ensures
            positions@.len() == sections * 3,
            exists|words: Seq<u32>|
                words.len() == sections * 3 && positions@ == #[trigger] spec_random_positions(
                    chunk,
                    words,
                ),
    {
        let mut words: Vec<u32> = Vec::new();
        let wanted: usize = sections * RANDOM_TICKS_PER_SECTION;
        while words.len() < wanted
            invariant
                words@.len() <= wanted,
            decreases wanted - words@.len(),
        {
            words.push(draw(&mut self.generator));
        }
        random_positions(chunk, sections, &words)
    }
}

/// A block that was tried for a random tick: where it is, and the block state
/// that was found there, if there is one.
#[derive(Clone, Copy, Debug, PartialEq, Eq, Structural)]
pub struct Probe {
    pub position: BlockPos,
    pub found: Option<BlockStateId>,
}

/// What one chunk adds to the ticks that are due.
pub struct ChunkTicks {
    pub block_ticks: Vec<OrderedTick>,
    pub fluid_ticks: Vec<OrderedTick>,
    pub probes: Vec<Probe>,
    /// The handles of the block entities in the chunk.
    pub block_entities: Vec<usize>,
}

/// The ticks that are due.
pub struct TickData {
    pub block_ticks: Vec<OrderedTick>,
    pub fluid_ticks: Vec<OrderedTick>,
    pub random_ticks: Vec<ScheduledTick<()>>,
    pub block_entities: Vec<usize>,
}

/// The block ticks that are due in a number of chunks, one chunk after the
/// other.
pub open spec fn all_block_ticks(chunks: Seq<ChunkTicks>) -> Seq<OrderedTick>
    decreases chunks.len(),
{
    if chunks.len() == 0 {
        Seq::empty()
    } else {
        all_block_ticks(chunks.drop_last()) + chunks.last().block_ticks@
    }
}

/// The fluid ticks that are due in a number of chunks, one chunk after the
/// other.
pub open spec fn all_fluid_ticks(chunks: Seq<ChunkTicks>) -> Seq<OrderedTick>
    decreases chunks.len(),
{
    if chunks.len() == 0 {
        Seq::empty()
    } else {
        all_fluid_ticks(chunks.drop_last()) + chunks.last().fluid_ticks@
    }
}

/// The block entities in a number of chunks, one chunk after the other.
pub open spec fn all_block_entities(chunks: Seq<ChunkTicks>) -> Seq<usize>
    decreases chunks.len(),
{
    if chunks.len() == 0 {
        Seq::empty()
    } else {
        all_block_entities(chunks.drop_last()) + chunks.last().block_entities@
    }
}

/// The random tick of a block that was tried: there is one if the block state
/// that was found, or air where none was, ticks at random.
pub open spec fn random_tick(blocks: BlockTable, probe: Probe) -> Option<ScheduledTick<()>> {
    let id = match probe.found {
        Some(id) => id,
        None => blocks.air,
    };
    if blocks.ticks_randomly(id) {
        Some(
            ScheduledTick {
                delay: 0,
                priority: TickPriority::Normal,
                position: probe.position,
                value: (),
            },
        )
    } else {
        None
    }
}

/// The random ticks in a number of chunks, one chunk after the other.
pub open spec fn all_random_ticks(blocks: BlockTable, chunks: Seq<ChunkTicks>) -> Seq<
    ScheduledTick<()>,
>
    decreases chunks.len(),
{
    if chunks.len() == 0 {
        Seq::empty()
    } else {
        all_random_ticks(blocks, chunks.drop_last()) + chunks.last().probes@.filter_map(
            |probe: Probe| random_tick(blocks, probe),
        )
    }
}

impl TickData {
    /// No ticks.
    fn empty() -> (ticks: TickData)
        ensures
            ticks.block_ticks@.len() == 0,
            ticks.fluid_ticks@.len() == 0,
            ticks.random_ticks@.len() == 0,
            ticks.block_entities@.len() == 0,
    {
        TickData {
            block_ticks: Vec::new(),
            fluid_ticks: Vec::new(),
            random_ticks: Vec::new(),
            block_entities: Vec::new(),
        }
    }

    /// Adds the random ticks of the blocks that were tried.
    fn add_random_ticks(&mut self, blocks: &BlockTable, probes: &Vec<Probe>)
        ensures
            final(self).random_ticks@ == old(self).random_ticks@ + probes@.filter_map(
                |probe: Probe| random_tick(*blocks, probe),
            ),
            final(self).block_ticks == old(self).block_ticks,
            final(self).fluid_ticks == old(self).fluid_ticks,
            final(self).block_entities == old(self).block_entities,
    {
        let ghost ticking = |probe: Probe| random_tick(*blocks, probe);
        let mut i: usize = 0;
        assert(self.random_ticks@ =~= old(self).random_ticks@ + probes@.take(0).filter_map(
            ticking,
        ));
        while i < probes.len()
            invariant
                i <= probes@.len(),
                ticking == (|probe: Probe| random_tick(*blocks, probe)),
                self.random_ticks@ == old(self).random_ticks@ + probes@.take(
                    i as int,
                ).filter_map(ticking),
                self.block_ticks == old(self).block_ticks,
                self.fluid_ticks == old(self).fluid_ticks,
                self.block_entities == old(self).block_entities,
            decreases probes@.len() - i,
        {
            let probe = probes[i];
            let id: BlockStateId = match probe.found {
                Some(id) => id,
                None => blocks.air,
            };
            if blocks.has_random_ticks(id) {
                self.random_ticks.push(
                    ScheduledTick {
                        delay: 0,
                        priority: TickPriority::Normal,
                        position: probe.position,
                        value: (),
                    },
                );
            }
            i += 1;
            assert(probes@.take(i as int).drop_last() =~= probes@.take(i - 1));
            assert(self.random_ticks@ =~= old(self).random_ticks@ + probes@.take(
                i as int,
            ).filter_map(ticking));
        }
        assert(probes@.take(i as int) =~= probes@);
    }
}

/// Appends what a list holds to another.
pub(crate) fn append_all<T: Copy>(all: &mut Vec<T>, more: &Vec<T>)
    ensures
        final(all)@ == old(all)@ + more@,
{
    let mut i: usize = 0;
    while i < more.len()
        invariant
            i <= more@.len(),
            all@ == old(all)@ + more@.take(i as int),
        decreases more@.len() - i,
    {
        all.push(more[i]);
        i += 1;
        assert(more@.take(i as int) =~= more@.take(i - 1).push(more@[i - 1]));
    }
    assert(more@.take(i as int) =~= more@);
}

/// A tick to be scheduled: in which chunk, and its place among all ticks that
/// were scheduled.
#[derive(Debug, PartialEq, Eq)]
pub struct TickOrder {
    pub chunk: Vector2,
    pub tick: ScheduledTick<u16>,
    pub sub_tick_order: u64,
}

/// A question about the ticks that are scheduled in a chunk: whether one is
/// scheduled for a position and for what ticks there.
#[derive(Clone, Copy, Debug, PartialEq, Eq, Structural)]
pub struct TickQuery {
    pub chunk: Vector2,
    pub position: BlockPos,
    pub value: u16,
}

impl LevelView {
    /// The level after one more tick was scheduled.
    pub open spec fn with_tick_counted(self) -> LevelView {
        LevelView {
            tick_count: if self.tick_count == u64::MAX {
                0
            } else {
                (self.tick_count + 1) as u64
            },
            ..self
        }
    }
}

impl Level {
    /// Gets random ticks, block ticks and fluid ticks, from what the chunks in
    /// memory add to them. The block ticks and the fluid ticks of all chunks
    /// are put in the order in which they happen.
    pub fn get_tick_data(&self, chunks: &Vec<ChunkTicks>) -> (ticks: TickData)
        ensures
            in_order(ticks.block_ticks@),
            ticks.block_ticks@.to_multiset() == all_block_ticks(chunks@).to_multiset(),
            in_order(ticks.fluid_ticks@),
            ticks.fluid_ticks@.to_multiset() == all_fluid_ticks(chunks@).to_multiset(),
            ticks.random_ticks@ == all_random_ticks(self@.blocks, chunks@),
            ticks.block_entities@ == all_block_entities(chunks@),
            ticks.block_ticks@.to_multiset() == chunks@.map_values(
                |chunk: ChunkTicks| chunk.block_ticks@,
            ).flatten().to_multiset(),
            ticks.fluid_ticks@.to_multiset() == chunks@.map_values(
                |chunk: ChunkTicks| chunk.fluid_ticks@,
            ).flatten().to_multiset(),
            ticks.block_entities@ == chunks@.map_values(
                |chunk: ChunkTicks| chunk.block_entities@,
            ).flatten(),
    {
        let mut ticks = TickData::empty();
        let mut i: usize = 0;
        while i < chunks.len()
            invariant
                i <= chunks@.len(),
                ticks.block_ticks@ == all_block_ticks(chunks@.take(i as int)),
                ticks.fluid_ticks@ == all_fluid_ticks(chunks@.take(i as int)),
                ticks.random_ticks@ == all_random_ticks(self@.blocks, chunks@.take(i as int)),
                ticks.block_entities@ == all_block_entities(chunks@.take(i as int)),
            decreases chunks@.len() - i,
        {
            append_all(&mut ticks.block_ticks, &chunks[i].block_ticks);
            append_all(&mut ticks.fluid_ticks, &chunks[i].fluid_ticks);
            ticks.add_random_ticks(&self.blocks, &chunks[i].probes);
            append_all(&mut ticks.block_entities, &chunks[i].block_entities);
            i += 1;
            assert(chunks@.take(i as int).drop_last() =~= chunks@.take(i - 1));
        }
        assert(chunks@.take(i as int) =~= chunks@);
        proof {
            law_ticks_of_all_chunks_are_gathered(chunks@);
        }
        TickData {
            block_ticks: sort_ticks(ticks.block_ticks),
            fluid_ticks: sort_ticks(ticks.fluid_ticks),
            random_ticks: ticks.random_ticks,
            block_entities: ticks.block_entities,
        }
    }

    /// Makes the tick of a block that is to be scheduled, says in which chunk,
    /// and gives it its place among all ticks that were scheduled.
    pub fn schedule_block_tick(
        &mut self,
        block: u16,
        block_pos: BlockPos,
        delay: u8,
        priority: TickPriority,
    ) -> (order: TickOrder)
        ensures
            order.chunk == block_pos.chunk(),
            order.tick == (ScheduledTick { delay, priority, position: block_pos, value: block }),
            order.sub_tick_order == old(self)@.tick_count,
            final(self)@ == old(self)@.with_tick_counted(),
            old(self)@.wf() ==> final(self)@.wf(),
    {
        let (chunk, _) = block_pos.chunk_and_chunk_relative_position();
        let sub_tick_order: u64 = self.schedule_tick_counts;
        self.schedule_tick_counts = sub_tick_order.wrapping_add(1);
        let tick = ScheduledTick { delay, priority, position: block_pos, value: block };
        TickOrder { chunk, tick, sub_tick_order }
    }

    /// Makes the tick of a fluid that is to be scheduled, says in which chunk,
    /// and gives it its place among all ticks that were scheduled.
    pub fn schedule_fluid_tick(
        &mut self,
        fluid: u16,
        block_pos: BlockPos,
        delay: u8,
        priority: TickPriority,
    ) -> (order: TickOrder)
        ensures
            order.chunk == block_pos.chunk(),
            order.tick == (ScheduledTick { delay, priority, position: block_pos, value: fluid }),
            order.sub_tick_order == old(self)@.tick_count,
            final(self)@ == old(self)@.with_tick_counted(),
            old(self)@.wf() ==> final(self)@.wf(),
    {
        let (chunk, _) = block_pos.chunk_and_chunk_relative_position();
        let sub_tick_order: u64 = self.schedule_tick_counts;
        self.schedule_tick_counts = sub_tick_order.wrapping_add(1);
        let tick = ScheduledTick { delay, priority, position: block_pos, value: fluid };
        TickOrder { chunk, tick, sub_tick_order }
    }

    /// What to ask, and which chunk, to learn whether a tick of the block is
    /// scheduled at the position.
    pub fn is_block_tick_scheduled(block_pos: &BlockPos, block: u16) -> (query: TickQuery)
        ensures
            query == (TickQuery {
                chunk: block_pos.chunk(),
                position: *block_pos,
                value: block,
            }),
    {
        let (chunk, _) = block_pos.chunk_and_chunk_relative_position();
        TickQuery { chunk, position: *block_pos, value: block }
    }

    /// What to ask, and which chunk, to learn whether a tick of the fluid is
    /// scheduled at the position.
    pub fn is_fluid_tick_scheduled(block_pos: &BlockPos, fluid: u16) -> (query: TickQuery)
        ensures
            query == (TickQuery {
                chunk: block_pos.chunk(),
                position: *block_pos,
                value: fluid,
            }),
    {
        let (chunk, _) = block_pos.chunk_and_chunk_relative_position();
        TickQuery { chunk, position: *block_pos, value: fluid }
    }
}

/// The block that a drawn number picks lies in the chunk that it was picked
/// for, at the place that the number gives, and in a layer of sixteen blocks.
pub proof fn law_random_position_lies_in_its_chunk(chunk: Vector2, section: int, word: u32)
    requires
        chunk_has_coordinates(chunk),
        0 <= section,
        section * 16 <= i32::MAX,
    ensures
        spec_random_position(chunk, section, word).chunk() == chunk,
        spec_random_position(chunk, section, word).relative().x == word as int % 16,
        spec_random_position(chunk, section, word).relative().z == word as int / 256 % 16,
        section * 16 - 32 <= spec_random_position(chunk, section, word).0.y < section * 16 - 16,
{
}

/// The level after a number of ticks were scheduled.
pub open spec fn after_ticks(level: LevelView, ticks: nat) -> LevelView
    decreases ticks,
{
    if ticks == 0 {
        level
    } else {
        after_ticks(level, (ticks - 1) as nat).with_tick_counted()
    }
}

/// The level counts the ticks that were scheduled, and changes in nothing
/// else. (After the largest number the count goes on with zero.)
pub proof fn law_scheduled_ticks_are_counted(level: LevelView, ticks: nat)
    ensures
        after_ticks(level, ticks).tick_count == (level.tick_count + ticks)
            % 0x1_0000_0000_0000_0000,
        after_ticks(level, ticks) == (LevelView {
            tick_count: after_ticks(level, ticks).tick_count,
            ..level
        }),
    decreases ticks,
{
    if ticks > 0 {
        law_scheduled_ticks_are_counted(level, (ticks - 1) as nat);
    }
}

/// Of the ticks that are due, the more urgent happen first, and ticks of one
/// priority happen in the order in which they were scheduled.
pub proof fn law_urgent_and_early_ticks_happen_first(ticks: Seq<OrderedTick>, i: int, j: int)
    requires
        in_order(ticks),
        0 <= i < ticks.len(),
        0 <= j < ticks.len(),
        ticks[i].priority.rank() < ticks[j].priority.rank() || ticks[i].priority
            == ticks[j].priority && ticks[i].sub_tick_order < ticks[j].sub_tick_order,
    ensures
        i < j,
{
    if j < i {
        assert(ticks[j].not_after(ticks[i]));
    }
}

/// Whether no two ticks have both their priority and their place in common.
pub open spec fn all_distinct(ticks: Seq<OrderedTick>) -> bool {
    forall|i: int, j: int|
        0 <= i < j < ticks.len() ==> (#[trigger] ticks[i]).priority != (
        #[trigger] ticks[j]).priority || ticks[i].sub_tick_order != ticks[j].sub_tick_order
}

/// Where no two ticks have both their priority and their place in common,
/// there is one order in which they happen.
pub proof fn law_order_of_ticks_is_determined(a: Seq<OrderedTick>, b: Seq<OrderedTick>)
    requires
        in_order(a),
        in_order(b),
        a.to_multiset() == b.to_multiset(),
        all_distinct(a),
    ensures
        a == b,
    decreases a.len(),
{
    a.to_multiset_ensures();
    b.to_multiset_ensures();
    if a.len() > 0 {
        let n = a.len() - 1;
        assert(a.contains(a[n]));
        assert(b.contains(b[n]));
        assert(a.to_multiset().count(a[n]) > 0);
        assert(b.to_multiset().count(b[n]) > 0);
        assert(a.contains(b[n]));
        assert(b.contains(a[n]));
        let i = choose|i: int| 0 <= i < a.len() && a[i] == b[n];
        let j = choose|j: int| 0 <= j < b.len() && b[j] == a[n];
        if i < n {
            assert(a[i].not_after(a[n]));
            if j < n {
                assert(b[j].not_after(b[n]));
            }
            assert(a[i].priority == a[n].priority);
        }
        assert(a[n] == b[n]);
        let shorter_a = a.drop_last();
        let shorter_b = b.drop_last();
        assert(shorter_a =~= a.remove(n));
        assert(shorter_b =~= b.remove(n));
        assert(shorter_a.to_multiset() =~= a.to_multiset().remove(a[n]));
        assert(shorter_b.to_multiset() =~= b.to_multiset().remove(b[n]));
        law_order_of_ticks_is_determined(shorter_a, shorter_b);
        assert(a =~= shorter_a.push(a[n]));
        assert(b =~= shorter_b.push(b[n]));
    } else {
        assert(a =~= b);
    }
}

/// The priorities come in one order, the most urgent first.
pub proof fn law_priorities_are_ranked()
    ensures
        TickPriority::ExtremelyHigh.rank() < TickPriority::VeryHigh.rank(),
        TickPriority::VeryHigh.rank() < TickPriority::High.rank(),
        TickPriority::High.rank() < TickPriority::Normal.rank(),
        TickPriority::Normal.rank() < TickPriority::Low.rank(),
        TickPriority::Low.rank() < TickPriority::VeryLow.rank(),
        TickPriority::VeryLow.rank() < TickPriority::ExtremelyLow.rank(),
{
}

/// The twelve lowest bits of a drawn number are read back from the block that it
/// picks: where the block lies in its chunk along x, how high it lies above the
/// lowest blocks of its section, and where it lies along z.
pub proof fn law_drawn_number_is_read_back_from_the_block(
    chunk: Vector2,
    section: int,
    word: u32,
)
    requires
        chunk_has_coordinates(chunk),
        0 <= section,
        section * 16 <= i32::MAX,
    ensures
        0 <= spec_random_position(chunk, section, word).0.x - chunk.x * 16 < 16,
        0 <= spec_random_position(chunk, section, word).0.y - (section * 16 - 32) < 16,
        0 <= spec_random_position(chunk, section, word).0.z - chunk.y * 16 < 16,
        (spec_random_position(chunk, section, word).0.x - chunk.x * 16) + 16 * (
        spec_random_position(chunk, section, word).0.y - (section * 16 - 32)) + 256 * (
        spec_random_position(chunk, section, word).0.z - chunk.y * 16) == word % 4096,
{
    assert(word % 16 + 16 * (word / 16 % 16) + 256 * (word / 256 % 16) == word % 4096 && word % 16
        < 16 && word / 16 % 16 < 16 && word / 256 % 16 < 16) by (bit_vector);
    let picked = spec_random_position(chunk, section, word).0;
    let (x, y, z) = ((word % 16) as int, (word / 16 % 16) as int, (word / 256 % 16) as int);
    assert(picked.x == chunk.x * 16 + x);
    assert(picked.y == section * 16 - 32 + y);
    assert(picked.z == chunk.y * 16 + z);
}

/// Each drawn number picks one block, and each three in turn pick blocks of the
/// same section, from the lowest section upwards.
pub proof fn law_three_blocks_of_each_section_are_picked(chunk: Vector2, words: Seq<u32>, k: int)
    requires
        chunk_has_coordinates(chunk),
        words.len() as int / 3 * 16 <= i32::MAX,
        0 <= k < words.len(),
    ensures
        spec_random_positions(chunk, words).len() == words.len(),
        spec_random_positions(chunk, words)[k].chunk() == chunk,
        spec_random_positions(chunk, words)[k] == spec_random_position(chunk, k / 3, words[k]),
        (spec_random_positions(chunk, words)[k].0.y + 32) / 16 == k / 3,
{
    law_random_position_lies_in_its_chunk(chunk, k / 3, words[k]);
}

/// The ticks and the block entities of all chunks are gathered: those of the
/// first chunk, then those of the next, and so on, each kind whatever else the
/// chunks hold.
pub proof fn law_ticks_of_all_chunks_are_gathered(chunks: Seq<ChunkTicks>)
    ensures
        all_block_ticks(chunks) == chunks.map_values(
            |chunk: ChunkTicks| chunk.block_ticks@,
        ).flatten(),
        all_fluid_ticks(chunks) == chunks.map_values(
            |chunk: ChunkTicks| chunk.fluid_ticks@,
        ).flatten(),
        all_block_entities(chunks) == chunks.map_values(
            |chunk: ChunkTicks| chunk.block_entities@,
        ).flatten(),
    decreases chunks.len(),
{
    let blocks = |chunk: ChunkTicks| chunk.block_ticks@;
    let fluids = |chunk: ChunkTicks| chunk.fluid_ticks@;
    let entities = |chunk: ChunkTicks| chunk.block_entities@;
    if chunks.len() > 0 {
        let shorter = chunks.drop_last();
        let last = chunks.last();
        law_ticks_of_all_chunks_are_gathered(shorter);
        assert(chunks.map_values(blocks) =~= shorter.map_values(blocks).push(blocks(last)));
        assert(chunks.map_values(fluids) =~= shorter.map_values(fluids).push(fluids(last)));
        assert(chunks.map_values(entities) =~= shorter.map_values(entities).push(entities(last)));
        shorter.map_values(blocks).lemma_flatten_push(blocks(last));
        shorter.map_values(fluids).lemma_flatten_push(fluids(last));
        shorter.map_values(entities).lemma_flatten_push(entities(last));
    }
}

/// A tick is due as often as it is in all chunks together: for each of the two
/// kinds, how often it occurs among the ticks that are due is the sum of how
/// often it occurs in each chunk.
pub proof fn law_no_tick_is_lost_or_added(
    chunks: Seq<ChunkTicks>,
    block_ticks: Seq<OrderedTick>,
    fluid_ticks: Seq<OrderedTick>,
    tick: OrderedTick,
)
    requires
        block_ticks.to_multiset() == all_block_ticks(chunks).to_multiset(),
        fluid_ticks.to_multiset() == all_fluid_ticks(chunks).to_multiset(),
    ensures
        block_ticks.to_multiset().count(tick) == chunks.map_values(
            |chunk: ChunkTicks| chunk.block_ticks@.to_multiset().count(tick),
        ).fold_left(0nat, |sum: nat, count: nat| sum + count),
        fluid_ticks.to_multiset().count(tick) == chunks.map_values(
            |chunk: ChunkTicks| chunk.fluid_ticks@.to_multiset().count(tick),
        ).fold_left(0nat, |sum: nat, count: nat| sum + count),
        forall|i: int|
            0 <= i < chunks.len() && (#[trigger] chunks[i]).block_ticks@.contains(tick)
                ==> block_ticks.contains(tick),
        forall|i: int|
            0 <= i < chunks.len() && (#[trigger] chunks[i]).fluid_ticks@.contains(tick)
                ==> fluid_ticks.contains(tick),
    decreases chunks.len(),
{
    let blocks = |chunk: ChunkTicks| chunk.block_ticks@.to_multiset().count(tick);
    let fluids = |chunk: ChunkTicks| chunk.fluid_ticks@.to_multiset().count(tick);
    let add = |sum: nat, count: nat| sum + count;
    block_ticks.to_multiset_ensures();
    fluid_ticks.to_multiset_ensures();
    all_block_ticks(chunks).to_multiset_ensures();
    all_fluid_ticks(chunks).to_multiset_ensures();
    if chunks.len() > 0 {
        let shorter = chunks.drop_last();
        let last = chunks.last();
        law_no_tick_is_lost_or_added(
            shorter,
            all_block_ticks(shorter),
            all_fluid_ticks(shorter),
            tick,
        );
        vstd::seq_lib::lemma_multiset_commutative(all_block_ticks(shorter), last.block_ticks@);
        vstd::seq_lib::lemma_multiset_commutative(all_fluid_ticks(shorter), last.fluid_ticks@);
        assert(chunks.map_values(blocks).drop_last() =~= shorter.map_values(blocks));
        assert(chunks.map_values(fluids).drop_last() =~= shorter.map_values(fluids));
        all_block_ticks(shorter).to_multiset_ensures();
        all_fluid_ticks(shorter).to_multiset_ensures();
        last.block_ticks@.to_multiset_ensures();
        last.fluid_ticks@.to_multiset_ensures();
        assert forall|i: int|
            0 <= i < chunks.len() && (#[trigger] chunks[i]).block_ticks@.contains(
                tick,
            ) implies block_ticks.contains(tick) by {
            if i < shorter.len() {
                assert(shorter[i] == chunks[i]);
                assert(all_block_ticks(shorter).to_multiset().count(tick) > 0);
            } else {
                assert(last.block_ticks@.to_multiset().count(tick) > 0);
            }
            assert(block_ticks.to_multiset().count(tick) > 0);
        }
        assert forall|i: int|
            0 <= i < chunks.len() && (#[trigger] chunks[i]).fluid_ticks@.contains(
                tick,
            ) implies fluid_ticks.contains(tick) by {
            if i < shorter.len() {
                assert(shorter[i] == chunks[i]);
                assert(all_fluid_ticks(shorter).to_multiset().count(tick) > 0);
            } else {
                assert(last.fluid_ticks@.to_multiset().count(tick) > 0);
            }
            assert(fluid_ticks.to_multiset().count(tick) > 0);
        }
    }
}

proof fn lemma_random_ticks_of_probes(
    probes: Seq<Probe>,
    blocks: BlockTable,
    ticks: spec_fn(Probe) -> bool,
    tick_of: spec_fn(Probe) -> ScheduledTick<()>,
)
    requires
        forall|probe: Probe| #[trigger]
            random_tick(blocks, probe) == (if ticks(probe) {
                Some(tick_of(probe))
            } else {
                None
            }),
    ensures
        probes.filter_map(|probe: Probe| random_tick(blocks, probe)) == probes.filter(
            ticks,
        ).map_values(tick_of),
    decreases probes.len(),
{
    reveal(Seq::filter);
    let ticking = |probe: Probe| random_tick(blocks, probe);
    if probes.len() > 0 {
        let shorter = probes.drop_last();
        let last = probes.last();
        lemma_random_ticks_of_probes(shorter, blocks, ticks, tick_of);
        assert(ticking(last) == random_tick(blocks, last));
        if ticks(last) {
            assert(probes.filter(ticks).map_values(tick_of) =~= shorter.filter(ticks).map_values(
                tick_of,
            ).push(tick_of(last)));
        }
    }
    assert(probes.filter_map(ticking) =~= probes.filter(ticks).map_values(tick_of));
}

/// Of all blocks that were tried, chunk by chunk, those tick at random whose
/// block state, or that of air where none was found, the table says to: at once,
/// at normal priority, and where they are.
pub proof fn law_tried_blocks_tick_by_the_table(blocks: BlockTable, chunks: Seq<ChunkTicks>)
    ensures
        all_random_ticks(blocks, chunks) == chunks.map_values(
            |chunk: ChunkTicks| chunk.probes@,
        ).flatten().filter(
            |probe: Probe|
                match probe.found {
                    Some(id) => id < blocks.random_ticks@.len() && blocks.random_ticks@[id as int],
                    None => blocks.air < blocks.random_ticks@.len()
                        && blocks.random_ticks@[blocks.air as int],
                },
        ).map_values(
            |probe: Probe|
                ScheduledTick {
                    delay: 0u8,
                    priority: TickPriority::Normal,
                    position: probe.position,
                    value: (),
                },
        ),
    decreases chunks.len(),
{
    let tried = |chunk: ChunkTicks| chunk.probes@;
    let ticks = |probe: Probe|
        match probe.found {
            Some(id) => id < blocks.random_ticks@.len() && blocks.random_ticks@[id as int],
            None => blocks.air < blocks.random_ticks@.len()
                && blocks.random_ticks@[blocks.air as int],
        };
    let tick_of = |probe: Probe|
        ScheduledTick {
            delay: 0u8,
            priority: TickPriority::Normal,
            position: probe.position,
            value: (),
        };
    if chunks.len() > 0 {
        let shorter = chunks.drop_last();
        let last = chunks.last();
        law_tried_blocks_tick_by_the_table(blocks, shorter);
        lemma_random_ticks_of_probes(last.probes@, blocks, ticks, tick_of);
        assert(chunks.map_values(tried) =~= shorter.map_values(tried).push(tried(last)));
        shorter.map_values(tried).lemma_flatten_push(tried(last));
        let before = shorter.map_values(tried).flatten();
        Seq::filter_distributes_over_add(before, last.probes@, ticks);
        assert(chunks.map_values(tried).flatten().filter(ticks).map_values(tick_of)
            =~= before.filter(ticks).map_values(tick_of) + last.probes@.filter(ticks).map_values(
            tick_of,
        ));
    } else {
        reveal(Seq::filter);
        assert(chunks.map_values(tried).flatten().filter(ticks).map_values(tick_of)
            =~= all_random_ticks(blocks, chunks));
    }
}

/// Of two ticks one may always happen before the other: the more urgent one, or
/// of two equally urgent ones the one scheduled earlier. Either may happen first
/// only if they share both.
pub proof fn law_two_ticks_are_ordered(a: OrderedTick, b: OrderedTick)
    ensures
        a.not_after(b) || b.not_after(a),
        a.priority.rank() < b.priority.rank() ==> a.not_after(b) && !b.not_after(a),
        a.priority == b.priority && a.sub_tick_order < b.sub_tick_order ==> a.not_after(b)
            && !b.not_after(a),
        a.not_after(b) && b.not_after(a) <==> a.priority == b.priority && a.sub_tick_order
            == b.sub_tick_order,
{
}

/// One more tick adds one to the count, which goes on with zero after the
/// largest number, and changes nothing else of the level.
pub proof fn law_one_tick_adds_one_to_the_count(level: LevelView)
    ensures
        level.with_tick_counted().tick_count == (level.tick_count + 1) % 0x1_0000_0000_0000_0000,
        level.with_tick_counted() == (LevelView {
            tick_count: level.with_tick_counted().tick_count,
            ..level
        }),
{
}

/// The blocks of a chunk have coordinates just if the chunk lies in the square
/// that block coordinates reach, counted in chunks of sixteen.
pub proof fn law_chunks_with_coordinates_fill_a_square(chunk: Vector2)
    ensures
        chunk_has_coordinates(chunk) <==> -0x800_0000 <= chunk.x < 0x800_0000 && -0x800_0000
            <= chunk.y < 0x800_0000,
{
}

} // verus!
