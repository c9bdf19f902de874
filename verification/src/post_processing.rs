//! Integer parts of the screen-space post effects: which effects are on,
//! where a neighbouring texel sits in a row-major buffer, and how many
//! neighbours belong to the same object (the outline effect).

use vstd::prelude::*;

verus! {

/// Which post effects run after a frame is rendered.
#[derive(Clone, Copy, Debug, PartialEq, Eq, Structural)]
pub struct PostProcessingConfig {
    pub cavity: bool,
    pub outline: bool,
}

impl PostProcessingConfig {
    /// Both effects off.
    pub fn new() -> (c: PostProcessingConfig)
        ensures
            !c.cavity,
            !c.outline,
    {
        PostProcessingConfig { cavity: false, outline: false }
    }
}

/// A texel position, or an offset between two texel positions.
#[derive(Clone, Copy, Debug, PartialEq, Eq, Structural)]
pub struct Texel {
    pub x: i32,
    pub y: i32,
}

/// Row-major position of `texel` moved by `offset` in a buffer `width`
/// texels wide.
pub open spec fn linear_index(texel: Texel, offset: Texel, width: int) -> int {
    (texel.y + offset.y) * width + (texel.x + offset.x)
}

/// Whether computing that position in `i32` stays in range at every step.
pub open spec fn index_fits(texel: Texel, offset: Texel, width: int) -> bool {
    &&& i32::MIN <= texel.x + offset.x <= i32::MAX
    &&& i32::MIN <= texel.y + offset.y <= i32::MAX
    &&& i32::MIN <= (texel.y + offset.y) * width <= i32::MAX
    &&& i32::MIN <= linear_index(texel, offset, width) <= i32::MAX
}

/// The buffer position of `texel` moved by `offset`, or `None` when it
/// falls before the start or past the end of a buffer of `len` texels.
pub fn texel_index(texel: Texel, offset: Texel, width: i32, len: usize) -> (r: Option<usize>)
    requires
        index_fits(texel, offset, width as int),
    ensures
        r == if 0 <= linear_index(texel, offset, width as int) < len {
            Some(linear_index(texel, offset, width as int) as usize)
        } else {
            None
        },
{
    let x = texel.x + offset.x;
    let y = texel.y + offset.y;
    let index = y * width + x;
    if index < 0 || index as usize >= len {
        None
    } else {
        Some(index as usize)
    }
}

/// The value that `texel_fetch_offset_u32` reads: the buffer entry at the
/// moved position, or 0 outside the buffer.
pub open spec fn fetch_u32(sampler: Seq<u32>, texel: Texel, offset: Texel, width: int) -> u32 {
    let i = linear_index(texel, offset, width);
    if 0 <= i < sampler.len() {
        sampler[i]
    } else {
        0
    }
}

/// Reads the entry of `texel` moved by `offset`, or 0 outside the buffer.
pub fn texel_fetch_offset_u32(sampler: &Vec<u32>, texel: Texel, offset: Texel, width: i32) -> (v: u32)
    requires
        index_fits(texel, offset, width as int),
    ensures
        v == fetch_u32(sampler@, texel, offset, width as int),
{
    match texel_index(texel, offset, width, sampler.len()) {
        Some(i) => sampler[i],
        None => 0,
    }
}

/// The neighbours that the outline effect compares with the centre texel.
pub open spec fn neighbour_offset(k: int) -> Texel {
    if k == 0 {
        Texel { x: 0, y: 1 }
    } else if k == 1 {
        Texel { x: 0, y: -1i32 }
    } else if k == 2 {
        Texel { x: -1i32, y: 0 }
    } else {
        Texel { x: 1, y: 0 }
    }
}

/// Whether every position the outline effect reads can be computed.
pub open spec fn outline_fits(texel: Texel, width: int) -> bool {
    &&& index_fits(texel, Texel { x: 0, y: 0 }, width)
    &&& forall|k: int| 0 <= k < 4 ==> index_fits(texel, #[trigger] neighbour_offset(k), width)
}

/// How many of the four neighbours carry the same object id as the texel.
pub open spec fn matching_neighbours(ids: Seq<u32>, texel: Texel, width: int) -> int {
    let center = fetch_u32(ids, texel, Texel { x: 0, y: 0 }, width);
    (if fetch_u32(ids, texel, neighbour_offset(0), width) == center { 1int } else { 0 })
        + (if fetch_u32(ids, texel, neighbour_offset(1), width) == center { 1int } else { 0 })
        + (if fetch_u32(ids, texel, neighbour_offset(2), width) == center { 1int } else { 0 })
        + (if fetch_u32(ids, texel, neighbour_offset(3), width) == center { 1int } else { 0 })
}

/// Counts the neighbours (above, below, left, right) whose object id
/// equals the texel's own; the outline opacity is one minus a quarter of it.
pub fn outline_matching_neighbours(texel: Texel, object_ids: &Vec<u32>, width: i32) -> (n: u32)
    requires
        outline_fits(texel, width as int),
    ensures
        n == matching_neighbours(object_ids@, texel, width as int),
        n <= 4,
{
    proof {
        assert(index_fits(texel, neighbour_offset(0), width as int));
        assert(index_fits(texel, neighbour_offset(1), width as int));
        assert(index_fits(texel, neighbour_offset(2), width as int));
        assert(index_fits(texel, neighbour_offset(3), width as int));
    }
    let center_id = texel_fetch_offset_u32(object_ids, texel, Texel { x: 0, y: 0 }, width);
    let object_up = texel_fetch_offset_u32(object_ids, texel, Texel { x: 0, y: 1 }, width);
    let object_down = texel_fetch_offset_u32(object_ids, texel, Texel { x: 0, y: -1 }, width);
    let object_right = texel_fetch_offset_u32(object_ids, texel, Texel { x: -1, y: 0 }, width);
    let object_left = texel_fetch_offset_u32(object_ids, texel, Texel { x: 1, y: 0 }, width);
    let mut n: u32 = 0;
    if object_up == center_id {
        n += 1;
    }
    if object_down == center_id {
        n += 1;
    }
    if object_right == center_id {
        n += 1;
    }
    if object_left == center_id {
        n += 1;
    }
    n
}

} // verus!
