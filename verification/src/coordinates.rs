//! Tile coordinates in the slippy map scheme, and the extent of the world in
//! tiles and pixels at a zoom level.
use vstd::prelude::*;
use vstd::arithmetic::power2::{lemma2_to64, lemma_pow2_strictly_increases, pow2};
use crate::types::{TileSize, ZoomLevel};

verus! {

/// Slippy map tile coordinates: the column `x` and row `y` of a tile at some
/// zoom level. They are used as they are in the requests to a tile server.
#[derive(Debug, Clone, Copy, Hash, PartialEq, Eq, Structural)]
pub struct SlippyTileCoordinates {
    pub x: u32,
    pub y: u32,
}

/// The number of tiles along one axis of the world at a zoom level: `2^zoom`.
pub open spec fn tiles_in_dimension(zoom_level: ZoomLevel) -> nat {
    pow2(zoom_level.level() as nat)
}

/// The number of pixels along one axis of the world: the tile's edge length
/// times the number of tiles.
pub open spec fn pixels_in_dimension(zoom_level: ZoomLevel, tile_size: TileSize) -> nat {
    (tile_size.pixels() * tiles_in_dimension(zoom_level)) as nat
}

/// At every zoom level the tile count along an axis is at least 1 and at most
/// `2^25`.
pub proof fn lemma_tiles_in_dimension_bounds(zoom_level: ZoomLevel)
    ensures
        1 <= tiles_in_dimension(zoom_level) <= 0x200_0000,
{
    lemma2_to64();
    let z = zoom_level.level() as nat;
    if z > 0 {
        lemma_pow2_strictly_increases(0, z);
    }
    if z < 25 {
        lemma_pow2_strictly_increases(z, 25);
    }
}

/// The number of tiles in a given dimension, x or y, at the given zoom level.
pub fn max_tiles_in_dimension(zoom_level: ZoomLevel) -> (tiles: u32)
    ensures
        tiles as nat == tiles_in_dimension(zoom_level),
{
    let z: u8 = zoom_level.to_u8();
    let mut tiles: u32 = 1;
    let mut i: u8 = 0;
    proof {
        lemma2_to64();
    }
    while i < z
        invariant
            i <= z <= 25,
            tiles as nat == pow2(i as nat),
        decreases z - i,
    {
        proof {
            lemma2_to64();
            if i < 24 {
                lemma_pow2_strictly_increases(i as nat, 24);
            }
            vstd::arithmetic::power2::lemma_pow2_unfold((i + 1) as nat);
        }
        tiles = tiles * 2;
        i = i + 1;
    }
    tiles
}

/// The number of pixels in a given dimension, x or y, at the given zoom level
/// and tile size.
pub fn max_pixels_in_dimension(zoom_level: ZoomLevel, tile_size: TileSize) -> (pixels: u64)
    ensures
        pixels as nat == pixels_in_dimension(zoom_level, tile_size),
{
    let tiles: u32 = max_tiles_in_dimension(zoom_level);
    let edge: u32 = tile_size.to_pixels();
    proof {
        lemma_tiles_in_dimension_bounds(zoom_level);
        assert(edge * tiles <= 768 * 0x200_0000) by (nonlinear_arith)
            requires
                0 <= edge <= 768,
                0 <= tiles <= 0x200_0000,
        ;
    }
    let wide_edge: u64 = edge as u64;
    let wide_tiles: u64 = tiles as u64;
    wide_edge * wide_tiles
}

} // verus!
