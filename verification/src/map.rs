//! The ground under the player: an endless grid of chunks, of which only
//! those near the player are kept.

use vstd::prelude::*;
use rand::Rng;
use rand_xoshiro::rand_core::SeedableRng;
use crate::seed::magnitude;
use crate::vec2::Vec2;
use crate::vec2::clamp_i32;
use crate::vec2::saturate;

verus! {

/// The side of a chunk, in steps.
pub const CHUNK_SIZE: i32 = 1_024_000;

/// How far the camera sees to either side of the player.
pub const CAMERA_SIZE_X: i32 = 800_000;

/// How far the camera sees above and below the player.
pub const CAMERA_SIZE_Y: i32 = 550_000;

/// How many levels there are to lay out a chunk with.
pub const LEVEL_COUNT: usize = 6;

/// The largest index a chunk can have.
pub const MAX_INDEX: i32 = 2098;

/// A chunk of the ground.
#[derive(Clone, Copy, Debug, PartialEq, Eq, Structural)]
pub struct Chunk {
    pub x: i32,
    pub y: i32,
}

/// The name of the level at `index`; the first level where there is
/// none.
pub open spec fn iid(index: int) -> Seq<char> {
    if index == 1 {
        "4c5c13d0-8990-11ee-bb97-5335be5f091d"@
    } else if index == 2 {
        "30c12d00-8990-11ee-8c0e-1f466f38a0b0"@
    } else if index == 3 {
        "09bdb020-8990-11ee-8c0e-83df39a96f91"@
    } else if index == 4 {
        "39c4ea40-8990-11ee-8c0e-f5477a2dc37e"@
    } else if index == 5 {
        "54eaef30-8990-11ee-bb97-69638b6a5187"@
    } else {
        "4561cae1-8990-11ee-bdb7-27b92e7f0bd1"@
    }
}

/// The name of the level at `index`; the first level where `index` names
/// none.
pub fn level_iid(index: usize) -> (name: &'static str)
    ensures
        name@ == iid(index as int),
{
    match index {
        1 => "4c5c13d0-8990-11ee-bb97-5335be5f091d",
        2 => "30c12d00-8990-11ee-8c0e-1f466f38a0b0",
        3 => "09bdb020-8990-11ee-8c0e-83df39a96f91",
        4 => "39c4ea40-8990-11ee-8c0e-f5477a2dc37e",
        5 => "54eaef30-8990-11ee-bb97-69638b6a5187",
        _ => "4561cae1-8990-11ee-bdb7-27b92e7f0bd1",
    }
}

/// The corner of the chunk at these indices.
pub fn map_indices_to_world_coords(x_index: i32, y_index: i32) -> (corner: Vec2)
    ensures
        corner.x == clamp_i32(x_index * CHUNK_SIZE),
        corner.y == clamp_i32(y_index * CHUNK_SIZE),
{
    proof {
        assert(-0x8000_0000 * 1_024_000 <= x_index * 1_024_000 <= 0x8000_0000 * 1_024_000)
            by (nonlinear_arith)
            requires
                -0x8000_0000 <= x_index <= 0x8000_0000,
        ;
        assert(-0x8000_0000 * 1_024_000 <= y_index * 1_024_000 <= 0x8000_0000 * 1_024_000)
            by (nonlinear_arith)
            requires
                -0x8000_0000 <= y_index <= 0x8000_0000,
        ;
    }
    Vec2 {
        x: saturate(x_index as i64 * CHUNK_SIZE as i64),
        y: saturate(y_index as i64 * CHUNK_SIZE as i64),
    }
}

/// The index of the chunk that holds the coordinate `v`: chunks are
/// counted from zero upward, and from minus one downward.
pub open spec fn chunk_index(v: int) -> int {
    if v < 0 {
        -((-v) / (CHUNK_SIZE as int)) - 1
    } else {
        v / (CHUNK_SIZE as int)
    }
}

fn index_of(v: i32) -> (index: i32)
    ensures
        index == chunk_index(v as int),
        -MAX_INDEX <= index <= MAX_INDEX,
{
    if v < 0 {
        let distance: i64 = -(v as i64);
        (-(distance / CHUNK_SIZE as i64) - 1) as i32
    } else {
        v / CHUNK_SIZE
    }
}

/// The indices of the chunk that holds `position`.
pub fn world_coords_to_map_indices(position: Vec2) -> (indices: (i32, i32))
    ensures
        indices.0 == chunk_index(position.x as int),
        indices.1 == chunk_index(position.y as int),
        -MAX_INDEX <= indices.0 <= MAX_INDEX,
        -MAX_INDEX <= indices.1 <= MAX_INDEX,
{
    (index_of(position.x), index_of(position.y))
}

/// What the level of a chunk is drawn from.
pub open spec fn chunk_seed_of(x_index: i32, y_index: i32, seed: u32) -> u64 {
    (seed + magnitude(x_index as int) + magnitude(y_index as int)) as u64
}

/// What the level of the chunk at these indices is drawn from: the
/// seed of the run plus the distances of the indices from zero.
pub fn chunk_seed(x_index: i32, y_index: i32, seed: u32) -> (s: u64)
    ensures
        s == chunk_seed_of(x_index, y_index, seed),
{
    let m: u64 = if x_index < 0 {
        (-(x_index as i64)) as u64
    } else {
        x_index as u64
    };
    let n: u64 = if y_index < 0 {
        (-(y_index as i64)) as u64
    } else {
        y_index as u64
    };
    seed as u64 + m + n
}

/// Draws a number below `count` from a `rand_xoshiro::Xoshiro256PlusPlus`
/// seeded with `seed`, through `SeedableRng::seed_from_u64` and
/// `rand::Rng::gen_range`. The number lies in the range asked for;
/// which one it is depends on the width of `usize`, so nothing more is
/// claimed. `gen_range` panics on an empty range.
#[verifier::external_body]
fn draw(seed: u64, count: usize) -> (pick: usize)
    requires
        count > 0,
    ensures
        pick < count,
{
    let mut rng = rand_xoshiro::Xoshiro256PlusPlus::seed_from_u64(seed);
    rng.gen_range(0..count)
}

/// Which level the chunk at these indices is laid out with.
pub fn map_indices_to_index(x_index: i32, y_index: i32, seed: u32) -> (index: usize)
    ensures
        index < LEVEL_COUNT,
{
    draw(chunk_seed(x_index, y_index, seed), LEVEL_COUNT)
}

/// The name of the level that the chunk at these indices is laid out
/// with: one of the levels there are.
pub fn level_set_from_map_indices(x_index: i32, y_index: i32, seed: u32) -> (name: &'static str)
    ensures
        exists|index: int| 0 <= index < LEVEL_COUNT && name@ == iid(index),
{
    let index = map_indices_to_index(x_index, y_index, seed);
    if index >= LEVEL_COUNT {
        return level_iid(0);
    }
    level_iid(index)
}

/// The chunks that the camera can see from `player_pos`: a block of
/// indices, given by its lowest and its highest corner.
pub fn visible_chunks(player_pos: Vec2) -> (window: (Chunk, Chunk))
    ensures
        window.0.x == chunk_index(clamp_i32(player_pos.x - CAMERA_SIZE_X)),
        window.0.y == chunk_index(clamp_i32(player_pos.y - CAMERA_SIZE_Y)),
        window.1.x == chunk_index(clamp_i32(player_pos.x + CAMERA_SIZE_X)),
        window.1.y == chunk_index(clamp_i32(player_pos.y + CAMERA_SIZE_Y)),
        -MAX_INDEX <= window.0.x <= window.1.x <= MAX_INDEX,
        -MAX_INDEX <= window.0.y <= window.1.y <= MAX_INDEX,
{
    let max = world_coords_to_map_indices(player_pos.plus(Vec2::new(CAMERA_SIZE_X, CAMERA_SIZE_Y)));
    let min = world_coords_to_map_indices(
        player_pos.plus(Vec2::new(-CAMERA_SIZE_X, -CAMERA_SIZE_Y)),
    );
    proof {
        lemma_chunk_index_monotonic(
            clamp_i32(player_pos.x - CAMERA_SIZE_X),
            clamp_i32(player_pos.x + CAMERA_SIZE_X),
        );
        lemma_chunk_index_monotonic(
            clamp_i32(player_pos.y - CAMERA_SIZE_Y),
            clamp_i32(player_pos.y + CAMERA_SIZE_Y),
        );
    }
    (Chunk { x: min.0, y: min.1 }, Chunk { x: max.0, y: max.1 })
}

/// Chunks are counted in the order of the coordinates.
pub proof fn lemma_chunk_index_monotonic(a: int, b: int)
    requires
        a <= b,
    ensures
        chunk_index(a) <= chunk_index(b),
{
    let c = CHUNK_SIZE as int;
    if a < 0 && b < 0 {
        vstd::arithmetic::div_mod::lemma_div_is_ordered(-b, -a, c);
    } else if a >= 0 {
        vstd::arithmetic::div_mod::lemma_div_is_ordered(a, b, c);
    } else {
        vstd::arithmetic::div_mod::lemma_div_pos_is_pos(-a, c);
        vstd::arithmetic::div_mod::lemma_div_pos_is_pos(b, c);
    }
}

/// Whether `chunk` lies in the block between `min` and `max`.
pub open spec fn in_window(chunk: Chunk, min: Chunk, max: Chunk) -> bool {
    min.x <= chunk.x <= max.x && min.y <= chunk.y <= max.y
}

/// The chunks of `chunks` that lie in the block, in their order.
pub open spec fn kept_chunks(chunks: Seq<Chunk>, min: Chunk, max: Chunk) -> Seq<Chunk>
    decreases chunks.len(),
{
    if chunks.len() == 0 {
        Seq::empty()
    } else if in_window(chunks.last(), min, max) {
        kept_chunks(chunks.drop_last(), min, max).push(chunks.last())
    } else {
        kept_chunks(chunks.drop_last(), min, max)
    }
}

/// The places in `chunks` of the chunks that lie outside the block.
pub open spec fn dropped_chunks(chunks: Seq<Chunk>, min: Chunk, max: Chunk) -> Seq<usize>
    decreases chunks.len(),
{
    if chunks.len() == 0 {
        Seq::empty()
    } else if in_window(chunks.last(), min, max) {
        dropped_chunks(chunks.drop_last(), min, max)
    } else {
        dropped_chunks(chunks.drop_last(), min, max).push((chunks.len() - 1) as usize)
    }
}

/// The first `n` chunks of the column `x`, from `y` upward.
pub open spec fn column(x: int, y: int, n: nat) -> Seq<Chunk> {
    Seq::new(n, |k: int| Chunk { x: x as i32, y: (y + k) as i32 })
}

/// The first `m` columns of the block that starts at `(x, y)` and is
/// `n` chunks high, column after column.
pub open spec fn block(x: int, y: int, m: nat, n: nat) -> Seq<Chunk>
    decreases m,
{
    if m == 0 {
        Seq::empty()
    } else {
        block(x, y, (m - 1) as nat, n) + column(x + m - 1, y, n)
    }
}

/// The chunks of `cells` that are not among `present`, in their order.
pub open spec fn missing(cells: Seq<Chunk>, present: Seq<Chunk>) -> Seq<Chunk>
    decreases cells.len(),
{
    if cells.len() == 0 {
        Seq::empty()
    } else if present.contains(cells.last()) {
        missing(cells.drop_last(), present)
    } else {
        missing(cells.drop_last(), present).push(cells.last())
    }
}

/// What is to be done with the chunks when the player has moved.
pub struct ChunkPlan {
    /// The places, among the chunks there are, of those to remove.
    pub despawn: Vec<usize>,
    /// The chunks to lay out.
    pub spawn: Vec<Chunk>,
}

fn holds(chunks: &Vec<Chunk>, chunk: Chunk) -> (found: bool)
    ensures
        found == chunks@.contains(chunk),
{
    let mut i: usize = 0;
    while i < chunks.len()
        invariant
            i <= chunks.len(),
            forall|j: int| 0 <= j < i ==> chunks@[j] != chunk,
        decreases chunks.len() - i,
    {
        if chunks[i] == chunk {
            return true;
        }
        i = i + 1;
    }
    false
}

/// Plans the chunks around `player_pos`: every chunk out of the
/// camera's sight is removed, and every chunk in its sight that is not
/// there yet is laid out, column after column.
pub fn adjust_chunks(player_pos: Vec2, chunks: &Vec<Chunk>) -> (plan: ChunkPlan)
    ensures
        ({
            let (min, max) = (
                Chunk {
                    x: chunk_index(clamp_i32(player_pos.x - CAMERA_SIZE_X)) as i32,
                    y: chunk_index(clamp_i32(player_pos.y - CAMERA_SIZE_Y)) as i32,
                },
                Chunk {
                    x: chunk_index(clamp_i32(player_pos.x + CAMERA_SIZE_X)) as i32,
                    y: chunk_index(clamp_i32(player_pos.y + CAMERA_SIZE_Y)) as i32,
                },
            );
            &&& plan.despawn@ == dropped_chunks(chunks@, min, max)
            &&& plan.spawn@ == missing(
                block(
                    min.x as int,
                    min.y as int,
                    (max.x - min.x + 1) as nat,
                    (max.y - min.y + 1) as nat,
                ),
                kept_chunks(chunks@, min, max),
            )
        }),
{
    let (min, max) = visible_chunks(player_pos);
    let mut existing: Vec<Chunk> = Vec::new();
    let mut despawn: Vec<usize> = Vec::new();
    let mut k: usize = 0;
    while k < chunks.len()
        invariant
            k <= chunks.len(),
            existing@ == kept_chunks(chunks@.take(k as int), min, max),
            despawn@ == dropped_chunks(chunks@.take(k as int), min, max),
        decreases chunks.len() - k,
    {
        let chunk = chunks[k];
        proof {
            assert(chunks@.take(k + 1).drop_last() =~= chunks@.take(k as int));
            assert(chunks@.take(k + 1).last() == chunk);
        }
        if chunk.x >= min.x && chunk.x <= max.x && chunk.y >= min.y && chunk.y <= max.y {
            existing.push(chunk);
        } else {
            despawn.push(k);
        }
        k = k + 1;
    }
    proof {
        assert(chunks@.take(chunks.len() as int) =~= chunks@);
    }
    let height: Ghost<nat> = Ghost((max.y - min.y + 1) as nat);
    let mut spawn: Vec<Chunk> = Vec::new();
    let mut visited: Ghost<Seq<Chunk>> = Ghost(Seq::empty());
    let mut i: i32 = min.x;
    while i <= max.x
        invariant
            min.x <= i <= max.x + 1,
            -MAX_INDEX <= min.x <= max.x <= MAX_INDEX,
            -MAX_INDEX <= min.y <= max.y <= MAX_INDEX,
            height@ == (max.y - min.y + 1) as nat,
            visited@ == block(min.x as int, min.y as int, (i - min.x) as nat, height@),
            spawn@ == missing(visited@, existing@),
        decreases max.x + 1 - i,
    {
        let ghost columns = visited@;
        let mut j: i32 = min.y;
        proof {
            assert(column(i as int, min.y as int, 0) =~= Seq::<Chunk>::empty());
            assert(columns + column(i as int, min.y as int, 0) =~= columns);
        }
        while j <= max.y
            invariant
                min.y <= j <= max.y + 1,
                -MAX_INDEX <= min.x <= i <= max.x <= MAX_INDEX,
                -MAX_INDEX <= min.y <= max.y <= MAX_INDEX,
                visited@ == columns + column(i as int, min.y as int, (j - min.y) as nat),
                spawn@ == missing(visited@, existing@),
            decreases max.y + 1 - j,
        {
            let cell = Chunk { x: i, y: j };
            proof {
                let so_far = column(i as int, min.y as int, (j - min.y) as nat);
                let longer = column(i as int, min.y as int, (j - min.y + 1) as nat);
                assert(so_far.push(cell) =~= longer);
                assert((columns + so_far).push(cell) =~= columns + longer);
                assert(visited@.push(cell).drop_last() =~= visited@);
                visited@ = visited@.push(cell);
            }
            if !holds(&existing, cell) {
                spawn.push(cell);
            }
            j = j + 1;
        }
        i = i + 1;
    }
    ChunkPlan { despawn, spawn }
}

} // verus!
