//! The hash map in which tiles are kept, and what is taken on trust about it.
//!
//! The map is `bevy_platform`'s `HashMap` with its fixed hasher. Verus does not
//! read that crate, so the map is opaque here: its contents are named by
//! [`tile_map_entries`], and each method the library calls has one wrapper whose
//! contract says, over that name, what `bevy_platform` documents for the method.
//! Everything else in the library is proved from these contracts.
use vstd::prelude::*;
use bevy_platform::collections::HashMap;
use bevy_platform::hash::FixedHasher;
use crate::types::DownloadStatus;

verus! {

/// `bevy_platform::collections::HashMap`, made known to Verus as a type whose
/// inside is not looked into.
#[verifier::external_type_specification]
#[verifier::external_body]
#[verifier::reject_recursive_types(K)]
#[verifier::reject_recursive_types(V)]
#[verifier::reject_recursive_types(S)]
pub struct ExHashMap<K, V, S>(HashMap<K, V, S>);

/// `bevy_platform::hash::FixedHasher`, the hasher of the map, made known to
/// Verus as a type whose inside is not looked into.
#[verifier::external_type_specification]
#[verifier::external_body]
pub struct ExFixedHasher(FixedHasher);

/// A tile's identity as plain numbers: column, row, zoom level and edge length
/// in pixels. A tuple of integers is hashed and compared as std documents.
pub type TileCode = (u32, u32, u8, u32);

/// What is recorded of a tile, as a plain value: its path and its status.
pub type TileRecord = (Seq<char>, DownloadStatus);

/// The hash map that holds tile records by tile code.
pub type TileMap = HashMap<TileCode, TileDownloadStatus>;

/// Represents the download status of a single slippy tile.
#[derive(Debug)]
pub struct TileDownloadStatus {
    pub path: String,
    pub load_status: DownloadStatus,
}

impl View for TileDownloadStatus {
    type V = TileRecord;

    open spec fn view(&self) -> TileRecord {
        (self.path@, self.load_status)
    }
}

/// The entries of a tile map: for each code in the map, the record stored
/// under it.
pub uninterp spec fn tile_map_entries(tiles: TileMap) -> Map<TileCode, TileRecord>;

/// The map without entries.
pub open spec fn no_tiles() -> Map<TileCode, TileRecord> {
    Map::empty()
}

/// What `insert` and `remove` hand back: the record that was stored under the
/// code before, if there was one.
pub open spec fn stored_before(
    before: Map<TileCode, TileRecord>,
    code: TileCode,
    replaced: Option<TileDownloadStatus>,
) -> bool {
    match replaced {
        Some(record) => before.dom().contains(code) && record@ == before[code],
        None => !before.dom().contains(code),
    }
}

/// What `HashMap::get` hands back: the record stored under the code, if there
/// is one.
pub open spec fn found_by_get(
    entries: Map<TileCode, TileRecord>,
    code: TileCode,
    found: Option<&TileDownloadStatus>,
) -> bool {
    match found {
        Some(record) => entries.dom().contains(code) && record@ == entries[code],
        None => !entries.dom().contains(code),
    }
}

/// `HashMap::new` of `bevy_platform`: the new map has no entries.
#[verifier::external_body]
pub(crate) fn tile_map_new() -> (tiles: TileMap)
    ensures
        tile_map_entries(tiles) == no_tiles(),
{
    HashMap::new()
}

/// `HashMap::insert` of `bevy_platform`: afterwards the map holds `record`
/// under `code` and is otherwise unchanged; the record that `code` had before
/// is returned.
#[verifier::external_body]
pub(crate) fn tile_map_insert(
    tiles: &mut TileMap,
    code: TileCode,
    record: TileDownloadStatus,
) -> (replaced: Option<TileDownloadStatus>)
    ensures
        tile_map_entries(*final(tiles)) == tile_map_entries(*old(tiles)).insert(code, record@),
        stored_before(tile_map_entries(*old(tiles)), code, replaced),
{
    tiles.insert(code, record)
}

/// `HashMap::contains_key` of `bevy_platform`: whether the map has an entry
/// under `code`.
#[verifier::external_body]
pub(crate) fn tile_map_contains_key(tiles: &TileMap, code: &TileCode) -> (found: bool)
    ensures
        found == tile_map_entries(*tiles).dom().contains(*code),
{
    tiles.contains_key(code)
}

/// `HashMap::get` of `bevy_platform`: the record stored under `code`, or
/// `None` where the map has no entry under it.
#[verifier::external_body]
pub(crate) fn tile_map_get<'a>(tiles: &'a TileMap, code: &TileCode) -> (found: Option<
    &'a TileDownloadStatus,
>)
    ensures
        found_by_get(tile_map_entries(*tiles), *code, found),
{
    tiles.get(code)
}

/// `HashMap::remove` of `bevy_platform`: afterwards the map has no entry under
/// `code` and is otherwise unchanged; the record that `code` had is returned.
#[verifier::external_body]
pub(crate) fn tile_map_remove(tiles: &mut TileMap, code: &TileCode) -> (removed: Option<
    TileDownloadStatus,
>)
    ensures
        tile_map_entries(*final(tiles)) == tile_map_entries(*old(tiles)).remove(*code),
        stored_before(tile_map_entries(*old(tiles)), *code, removed),
{
    tiles.remove(code)
}

} // verus!
