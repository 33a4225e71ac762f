//! The packed tile byte: a direction code in the low nibble, the resource
//! flag in bit 4, a marker bit in bit 5 and the cosmetic animation phase in
//! the two top bits.
use vstd::prelude::*;

verus! {

/// The bit that marks a cell as holding a resource.
pub const RESOURCE_BIT: u8 = 0x10;

/// The two bits that carry the movement direction of a directed tile.
pub const DIR_MASK: u8 = 0b11;

pub const TILE_DIR_DOWN: u8 = 0b00;
pub const TILE_DIR_LEFT: u8 = 0b01;
pub const TILE_DIR_UP: u8 = 0b10;
pub const TILE_DIR_RIGHT: u8 = 0b11;

/// The bits that logic may read: everything but the animation phase.
pub const ANIMATION_COUNTER_MASK: u8 = 0x3f;

/// The bits that make up a tile's code: all logical bits but the resource flag.
pub const TILE_CODE_MASK: u8 = 0x2f;

/// The bit that all reserved (non-directional) codes, the spawner markers
/// among them, carry.
pub const MARKER_BIT: u8 = 0x20;

/// Where a tile sends the resource that sits on it.
#[derive(PartialEq, Eq, Structural, Clone, Copy, Debug)]
pub enum Direction {
    Left,
    Up,
    Right,
    Down,
    /// Empty cells, walls and spawner markers: nothing moves off them.
    Still,
}

/// Whether the resource bit of `tile` is set.
pub open spec fn resource_of(tile: u8) -> bool {
    tile & 0x10 != 0
}

/// The logical code of `tile`: its low nibble and its marker bit.
pub open spec fn code_of(tile: u8) -> u8 {
    tile & 0x2f
}

/// Whether `tile` carries a movement direction at all.
pub open spec fn is_directed(tile: u8) -> bool {
    tile & 0x2f != 0 && tile & 0x20 == 0
}

/// The direction that `tile` encodes: the low two bits of a directed tile.
pub open spec fn direction_spec(tile: u8) -> Direction {
    if !is_directed(tile) {
        Direction::Still
    } else if tile & 3 == 0 {
        Direction::Down
    } else if tile & 3 == 1 {
        Direction::Left
    } else if tile & 3 == 2 {
        Direction::Up
    } else {
        Direction::Right
    }
}

/// The tile whose code is `code` and whose resource flag is `resource`.
pub open spec fn encode_spec(code: u8, resource: bool) -> u8 {
    if resource {
        code | 0x10
    } else {
        code
    }
}

pub fn has_resource(tile: u8) -> (r: bool)
    ensures
        r == resource_of(tile),
{
    tile & RESOURCE_BIT > 0
}

pub fn set_resource(tile: u8) -> (r: u8)
    ensures
        r == tile | 0x10,
{
    tile | RESOURCE_BIT
}

pub fn clear_resource(tile: u8) -> (r: u8)
    ensures
        r == tile & 0xef,
{
    let r = tile & (!RESOURCE_BIT);
    assert(tile & !0x10u8 == tile & 0xef) by (bit_vector);
    r
}

/// Drops the animation phase, keeping the bits that logic reads.
pub fn clear_animation_counter(tile: u8) -> (r: u8)
    ensures
        r == tile & 0x3f,
{
    tile & ANIMATION_COUNTER_MASK
}

/// The logical code of `tile`, without its resource flag.
pub fn tile_code(tile: u8) -> (r: u8)
    ensures
        r == code_of(tile),
{
    tile & TILE_CODE_MASK
}

/// Builds a tile from a code and a resource flag.
pub fn encode_tile(code: u8, resource: bool) -> (r: u8)
    ensures
        r == encode_spec(code, resource),
{
    if resource {
        code | RESOURCE_BIT
    } else {
        code
    }
}

pub fn direction_of(tile: u8) -> (r: Direction)
    ensures
        r == direction_spec(tile),
{
    let code = tile & TILE_CODE_MASK;
    if code == 0 || code & MARKER_BIT != 0 {
        assert(tile & 0x2f & 0x20 == tile & 0x20) by (bit_vector);
        return Direction::Still;
    }
    assert(tile & 0x2f & 0x20 == tile & 0x20) by (bit_vector);
    assert(tile & 0x2f & 3 == tile & 3) by (bit_vector);
    let d = code & DIR_MASK;
    if d == TILE_DIR_DOWN {
        Direction::Down
    } else if d == TILE_DIR_LEFT {
        Direction::Left
    } else if d == TILE_DIR_UP {
        Direction::Up
    } else {
        assert(tile & 3 <= 3) by (bit_vector);
        Direction::Right
    }
}

pub fn is_dir_down(tile: u8) -> (r: bool)
    ensures
        r == (direction_spec(tile) == Direction::Down),
{
    direction_of(tile) == Direction::Down
}

pub fn is_dir_left(tile: u8) -> (r: bool)
    ensures
        r == (direction_spec(tile) == Direction::Left),
{
    direction_of(tile) == Direction::Left
}

pub fn is_dir_up(tile: u8) -> (r: bool)
    ensures
        r == (direction_spec(tile) == Direction::Up),
{
    direction_of(tile) == Direction::Up
}

pub fn is_dir_right(tile: u8) -> (r: bool)
    ensures
        r == (direction_spec(tile) == Direction::Right),
{
    direction_of(tile) == Direction::Right
}

/// Setting the resource flag makes it read as set, clearing it makes it read
/// as clear, and clearing after setting gives the tile with the flag cleared,
/// whatever the flag was before.
pub proof fn lemma_resource_flag(tile: u8)
    ensures
        resource_of(tile | 0x10),
        !resource_of(tile & 0xef),
        (tile | 0x10) & 0xef == tile & 0xef,
        (tile & 0xef) & 0xef == tile & 0xef,
        (tile | 0x10) | 0x10 == tile | 0x10,
{
    assert((tile | 0x10) & 0x10 != 0) by (bit_vector);
    assert((tile & 0xef) & 0x10 == 0) by (bit_vector);
    assert((tile | 0x10) & 0xef == tile & 0xef) by (bit_vector);
    assert((tile & 0xef) & 0xef == tile & 0xef) by (bit_vector);
    assert((tile | 0x10) | 0x10 == tile | 0x10) by (bit_vector);
}

/// The resource flag and the animation phase do not take part in the
/// direction: setting or clearing the flag, or masking the phase off, leaves
/// the direction as it was.
pub proof fn lemma_direction_independent(tile: u8)
    ensures
        direction_spec(tile | 0x10) == direction_spec(tile),
        direction_spec(tile & 0xef) == direction_spec(tile),
        direction_spec(tile & 0x3f) == direction_spec(tile),
        code_of(tile | 0x10) == code_of(tile),
        code_of(tile & 0xef) == code_of(tile),
{
    assert((tile | 0x10) & 0x2f == tile & 0x2f) by (bit_vector);
    assert((tile & 0xef) & 0x2f == tile & 0x2f) by (bit_vector);
    assert((tile & 0x3f) & 0x2f == tile & 0x2f) by (bit_vector);
    assert((tile | 0x10) & 0x20 == tile & 0x20) by (bit_vector);
    assert((tile & 0xef) & 0x20 == tile & 0x20) by (bit_vector);
    assert((tile & 0x3f) & 0x20 == tile & 0x20) by (bit_vector);
    assert((tile | 0x10) & 3 == tile & 3) by (bit_vector);
    assert((tile & 0xef) & 3 == tile & 3) by (bit_vector);
    assert((tile & 0x3f) & 3 == tile & 3) by (bit_vector);
}

/// Every code that a tile can carry, together with either value of the
/// resource flag, comes back out of the encoded tile unchanged, and so does
/// the direction that the code stands for.
pub proof fn lemma_tile_round_trip(code: u8, resource: bool)
    requires
        code & 0x2f == code,
    ensures
        code_of(encode_spec(code, resource)) == code,
        resource_of(encode_spec(code, resource)) == resource,
        direction_spec(encode_spec(code, resource)) == direction_spec(code),
{
    assert(code & 0x2f == code ==> (code | 0x10) & 0x2f == code) by (bit_vector);
    assert(code & 0x2f == code ==> code & 0x10 == 0) by (bit_vector);
    assert((code | 0x10) & 0x10 != 0) by (bit_vector);
    lemma_direction_independent(code);
}

} // verus!
