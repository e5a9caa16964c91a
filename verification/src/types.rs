//! The value types shared by the whole library: zoom levels, tile sizes,
//! request radius, cache policy flags and download status.
use vstd::prelude::*;
use vstd::std_specs::convert::TryFromSpecImpl;

verus! {

/// The zoom level used when fetching tiles (0 <= zoom <= 25).
///
/// At zoom level `z` the world is cut into `2^z` tiles along each axis.
#[derive(Eq, Hash, PartialEq, Clone, Copy, Debug, Structural)]
pub enum ZoomLevel {
    L0,
    L1,
    L2,
    L3,
    L4,
    L5,
    L6,
    L7,
    L8,
    L9,
    L10,
    L11,
    L12,
    L13,
    L14,
    L15,
    L16,
    L17,
    L18,
    L19,
    L20,
    L21,
    L22,
    L23,
    L24,
    L25,
}

/// The zoom level that carries the number `v`, if there is one.
pub open spec fn zoom_level_of(v: int) -> Option<ZoomLevel> {
    if v == 0 {
        Some(ZoomLevel::L0)
    } else if v == 1 {
        Some(ZoomLevel::L1)
    } else if v == 2 {
        Some(ZoomLevel::L2)
    } else if v == 3 {
        Some(ZoomLevel::L3)
    } else if v == 4 {
        Some(ZoomLevel::L4)
    } else if v == 5 {
        Some(ZoomLevel::L5)
    } else if v == 6 {
        Some(ZoomLevel::L6)
    } else if v == 7 {
        Some(ZoomLevel::L7)
    } else if v == 8 {
        Some(ZoomLevel::L8)
    } else if v == 9 {
        Some(ZoomLevel::L9)
    } else if v == 10 {
        Some(ZoomLevel::L10)
    } else if v == 11 {
        Some(ZoomLevel::L11)
    } else if v == 12 {
        Some(ZoomLevel::L12)
    } else if v == 13 {
        Some(ZoomLevel::L13)
    } else if v == 14 {
        Some(ZoomLevel::L14)
    } else if v == 15 {
        Some(ZoomLevel::L15)
    } else if v == 16 {
        Some(ZoomLevel::L16)
    } else if v == 17 {
        Some(ZoomLevel::L17)
    } else if v == 18 {
        Some(ZoomLevel::L18)
    } else if v == 19 {
        Some(ZoomLevel::L19)
    } else if v == 20 {
        Some(ZoomLevel::L20)
    } else if v == 21 {
        Some(ZoomLevel::L21)
    } else if v == 22 {
        Some(ZoomLevel::L22)
    } else if v == 23 {
        Some(ZoomLevel::L23)
    } else if v == 24 {
        Some(ZoomLevel::L24)
    } else if v == 25 {
        Some(ZoomLevel::L25)
    } else {
        None
    }
}

impl ZoomLevel {
    /// The number of this zoom level, between 0 and 25.
    pub open spec fn level(self) -> int {
        match self {
            ZoomLevel::L0 => 0,
            ZoomLevel::L1 => 1,
            ZoomLevel::L2 => 2,
            ZoomLevel::L3 => 3,
            ZoomLevel::L4 => 4,
            ZoomLevel::L5 => 5,
            ZoomLevel::L6 => 6,
            ZoomLevel::L7 => 7,
            ZoomLevel::L8 => 8,
            ZoomLevel::L9 => 9,
            ZoomLevel::L10 => 10,
            ZoomLevel::L11 => 11,
            ZoomLevel::L12 => 12,
            ZoomLevel::L13 => 13,
            ZoomLevel::L14 => 14,
            ZoomLevel::L15 => 15,
            ZoomLevel::L16 => 16,
            ZoomLevel::L17 => 17,
            ZoomLevel::L18 => 18,
            ZoomLevel::L19 => 19,
            ZoomLevel::L20 => 20,
            ZoomLevel::L21 => 21,
            ZoomLevel::L22 => 22,
            ZoomLevel::L23 => 23,
            ZoomLevel::L24 => 24,
            ZoomLevel::L25 => 25,
        }
    }

    /// The number of this zoom level as a byte.
    pub fn to_u8(&self) -> (v: u8)
        ensures
            v as int == self.level(),
            v <= 25,
    {
        match self {
            ZoomLevel::L0 => 0,
            ZoomLevel::L1 => 1,
            ZoomLevel::L2 => 2,
            ZoomLevel::L3 => 3,
            ZoomLevel::L4 => 4,
            ZoomLevel::L5 => 5,
            ZoomLevel::L6 => 6,
            ZoomLevel::L7 => 7,
            ZoomLevel::L8 => 8,
            ZoomLevel::L9 => 9,
            ZoomLevel::L10 => 10,
            ZoomLevel::L11 => 11,
            ZoomLevel::L12 => 12,
            ZoomLevel::L13 => 13,
            ZoomLevel::L14 => 14,
            ZoomLevel::L15 => 15,
            ZoomLevel::L16 => 16,
            ZoomLevel::L17 => 17,
            ZoomLevel::L18 => 18,
            ZoomLevel::L19 => 19,
            ZoomLevel::L20 => 20,
            ZoomLevel::L21 => 21,
            ZoomLevel::L22 => 22,
            ZoomLevel::L23 => 23,
            ZoomLevel::L24 => 24,
            ZoomLevel::L25 => 25,
        }
    }
}

impl TryFrom<u8> for ZoomLevel {
    type Error = ();

    /// The zoom level with number `v`; numbers above 25 are rejected.
    fn try_from(v: u8) -> (r: Result<Self, Self::Error>) {
        match v {
            0 => Ok(ZoomLevel::L0),
            1 => Ok(ZoomLevel::L1),
            2 => Ok(ZoomLevel::L2),
            3 => Ok(ZoomLevel::L3),
            4 => Ok(ZoomLevel::L4),
            5 => Ok(ZoomLevel::L5),
            6 => Ok(ZoomLevel::L6),
            7 => Ok(ZoomLevel::L7),
            8 => Ok(ZoomLevel::L8),
            9 => Ok(ZoomLevel::L9),
            10 => Ok(ZoomLevel::L10),
            11 => Ok(ZoomLevel::L11),
            12 => Ok(ZoomLevel::L12),
            13 => Ok(ZoomLevel::L13),
            14 => Ok(ZoomLevel::L14),
            15 => Ok(ZoomLevel::L15),
            16 => Ok(ZoomLevel::L16),
            17 => Ok(ZoomLevel::L17),
            18 => Ok(ZoomLevel::L18),
            19 => Ok(ZoomLevel::L19),
            20 => Ok(ZoomLevel::L20),
            21 => Ok(ZoomLevel::L21),
            22 => Ok(ZoomLevel::L22),
            23 => Ok(ZoomLevel::L23),
            24 => Ok(ZoomLevel::L24),
            25 => Ok(ZoomLevel::L25),
            _ => Err(()),
        }
    }
}

impl TryFromSpecImpl<u8> for ZoomLevel {
    open spec fn obeys_try_from_spec() -> bool {
        true
    }

    open spec fn try_from_spec(v: u8) -> Result<Self, Self::Error> {
        match zoom_level_of(v as int) {
            Some(z) => Ok(z),
            None => Err(()),
        }
    }
}

/// Numbering is a bijection between the zoom levels and `0..=25`: a level is
/// found again from its number, and a number in range from its level.
pub proof fn lemma_zoom_level_numbering(z: ZoomLevel, v: int)
    ensures
        0 <= z.level() <= 25,
        zoom_level_of(z.level()) == Some(z),
        0 <= v <= 25 <==> zoom_level_of(v).is_some(),
        zoom_level_of(v).is_some() ==> zoom_level_of(v).unwrap().level() == v,
{
}

/// The size of the tiles being requested: 256px (Normal), 512px (Large) or
/// 768px (VeryLarge). Not every tile provider supports the larger two.
#[derive(Eq, Hash, PartialEq, Clone, Copy, Debug, Structural)]
pub enum TileSize {
    Normal,
    Large,
    VeryLarge,
}

impl TileSize {
    /// The edge length of a tile of this size, in pixels.
    pub open spec fn pixels(self) -> int {
        match self {
            TileSize::Normal => 256,
            TileSize::Large => 512,
            TileSize::VeryLarge => 768,
        }
    }

    /// What a tile server expects behind the tile's y index for this size.
    pub open spec fn url_postfix(self) -> Seq<char> {
        match self {
            TileSize::Normal => Seq::empty(),
            TileSize::Large => seq!['@', '2', 'x'],
            TileSize::VeryLarge => seq!['@', '3', 'x'],
        }
    }

    /// The tile size for a pixel count: 512 is Large, 768 is VeryLarge and
    /// every other value is Normal.
    pub fn new(tile_pixels: u32) -> (size: TileSize)
        ensures
            tile_pixels == 768 ==> size == TileSize::VeryLarge,
            tile_pixels == 512 ==> size == TileSize::Large,
            tile_pixels != 768 && tile_pixels != 512 ==> size == TileSize::Normal,
    {
        match tile_pixels {
            768 => TileSize::VeryLarge,
            512 => TileSize::Large,
            _ => TileSize::Normal,
        }
    }

    /// The number of pixels along one edge of a tile of this size.
    pub fn to_pixels(&self) -> (pixels: u32)
        ensures
            pixels as int == self.pixels(),
    {
        match self {
            TileSize::Normal => 256,
            TileSize::Large => 512,
            TileSize::VeryLarge => 768,
        }
    }

    /// The suffix that selects this size in a tile URL: nothing, `@2x` or `@3x`.
    pub fn get_url_postfix(&self) -> (postfix: String)
        ensures
            postfix@ == self.url_postfix(),
    {
        proof {
            reveal_strlit("");
            reveal_strlit("@2x");
            reveal_strlit("@3x");
        }
        let postfix = match self {
            TileSize::Normal => String::from_str(""),
            TileSize::Large => String::from_str("@2x"),
            TileSize::VeryLarge => String::from_str("@3x"),
        };
        assert(postfix@ =~= self.url_postfix());
        postfix
    }
}

/// Number of tiles away from the main tile that should be fetched: the layers
/// of surrounding tiles.
///
/// Radius(0) = 1 tile (1x1), Radius(1) = 9 tiles (3x3), Radius(2) = 25 tiles
/// (5x5), Radius(3) = 49 tiles (7x7), and so on.
#[derive(Debug)]
pub struct Radius(pub u8);

/// Whether a request may be answered from tiles already on disk.
pub enum UseCache {
    Yes,
    No,
}

impl UseCache {
    pub fn new(value: bool) -> (flag: UseCache)
        ensures
            flag is Yes <==> value,
    {
        match value {
            true => UseCache::Yes,
            _ => UseCache::No,
        }
    }
}

/// Whether a download of the tile is already under way.
pub enum AlreadyDownloaded {
    Yes,
    No,
}

impl AlreadyDownloaded {
    pub fn new(value: bool) -> (flag: AlreadyDownloaded)
        ensures
            flag is Yes <==> value,
    {
        match value {
            true => AlreadyDownloaded::Yes,
            _ => AlreadyDownloaded::No,
        }
    }
}

/// Whether the tile's file is present in storage.
pub enum FileExists {
    Yes,
    No,
}

impl FileExists {
    pub fn new(value: bool) -> (flag: FileExists)
        ensures
            flag is Yes <==> value,
    {
        match value {
            true => FileExists::Yes,
            _ => FileExists::No,
        }
    }
}

/// Where a tile stands: its transfer is under way, or its file is in storage.
#[derive(Debug, Clone, Copy, PartialEq, Eq, Structural)]
pub enum DownloadStatus {
    Downloading,
    Downloaded,
}

} // verus!
