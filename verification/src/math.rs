//! Coordinates of chunks and blocks.

use vstd::prelude::*;

verus! {

/// A pair of coordinates. The coordinates of a chunk are its x coordinate and,
/// as `y`, its z coordinate, both in chunks.
#[derive(Clone, Copy, Debug, PartialEq, Eq, Hash, Structural)]
pub struct Vector2 {
    pub x: i32,
    pub y: i32,
}

impl Vector2 {
    pub fn new(x: i32, y: i32) -> (made: Vector2)
        ensures
            made == (Vector2 { x, y }),
    {
        Vector2 { x, y }
    }

    /// The coordinates as a map key.
    pub open spec fn spec_key(self) -> (i32, i32) {
        (self.x, self.y)
    }

    /// The coordinates as a map key.
    #[verifier::when_used_as_spec(spec_key)]
    pub fn key(self) -> (key: (i32, i32))
        ensures
            key == self.spec_key(),
    {
        (self.x, self.y)
    }

    /// The coordinates that a map key stands for.
    pub open spec fn spec_from_key(key: (i32, i32)) -> Vector2 {
        Vector2 { x: key.0, y: key.1 }
    }

    /// The coordinates that a map key stands for.
    #[verifier::when_used_as_spec(spec_from_key)]
    pub fn from_key(key: (i32, i32)) -> (made: Vector2)
        ensures
            made == Vector2::spec_from_key(key),
    {
        Vector2 { x: key.0, y: key.1 }
    }
}

/// A triple of coordinates.
#[derive(Clone, Copy, Debug, PartialEq, Eq, Hash, Structural)]
pub struct Vector3 {
    pub x: i32,
    pub y: i32,
    pub z: i32,
}

/// Where a block is, in blocks.
#[derive(Clone, Copy, Debug, PartialEq, Eq, Hash, Structural)]
pub struct BlockPos(pub Vector3);

impl BlockPos {
    pub fn new(x: i32, y: i32, z: i32) -> (made: BlockPos)
        ensures
            made == BlockPos(Vector3 { x, y, z }),
    {
        BlockPos(Vector3 { x, y, z })
    }

    /// The chunk that the block is in.
    pub open spec fn chunk(self) -> Vector2 {
        Vector2 { x: (self.0.x as int / 16) as i32, y: (self.0.z as int / 16) as i32 }
    }

    /// Where in its chunk the block is: the height stays, the other two
    /// coordinates are counted from the chunk's corner.
    pub open spec fn relative(self) -> Vector3 {
        Vector3 {
            x: (self.0.x as int % 16) as i32,
            y: self.0.y,
            z: (self.0.z as int % 16) as i32,
        }
    }

    /// The chunk that the block is in, and where in that chunk it is.
    pub fn chunk_and_chunk_relative_position(&self) -> (placed: (Vector2, Vector3))
        ensures
            placed.0 == self.chunk(),
            placed.1 == self.relative(),
            0 <= placed.1.x < 16,
            0 <= placed.1.z < 16,
    {
        let x: i32 = self.0.x;
        let z: i32 = self.0.z;
        assert(16 * (x >> 4) + (x & 15) == x && 0 <= (x & 15) < 16) by (bit_vector);
        assert(16 * (z >> 4) + (z & 15) == z && 0 <= (z & 15) < 16) by (bit_vector);
        (Vector2 { x: x >> 4, y: z >> 4 }, Vector3 { x: x & 15, y: self.0.y, z: z & 15 })
    }
}

/// A block is found again from its chunk and its place in the chunk.
pub proof fn law_position_is_chunk_corner_plus_offset(position: BlockPos)
    ensures
        position.chunk().x * 16 + position.relative().x == position.0.x,
        position.chunk().y * 16 + position.relative().z == position.0.z,
        position.relative().y == position.0.y,
        0 <= position.relative().x < 16,
        0 <= position.relative().z < 16,
{
}

/// Two blocks in one chunk at one place in it are the same block.
pub proof fn law_chunk_and_offset_determine_position(a: BlockPos, b: BlockPos)
    requires
        a.chunk() == b.chunk(),
        a.relative() == b.relative(),
    ensures
        a == b,
{
    law_position_is_chunk_corner_plus_offset(a);
    law_position_is_chunk_corner_plus_offset(b);
}

/// The key of a chunk is its two coordinates, in their order, and the chunk is
/// found again from its key.
pub proof fn law_chunks_and_keys_match(chunk: Vector2, key: (i32, i32))
    ensures
        chunk.key().0 == chunk.x,
        chunk.key().1 == chunk.y,
        Vector2::from_key(chunk.key()) == chunk,
        Vector2::from_key(key).key() == key,
{
}

} // verus!
