use vstd::prelude::*;

verus! {

/// The kind of a tile. `Corruption` is terminal: nothing turns a corrupted
/// tile back into another kind.
#[derive(Clone, Copy, PartialEq, Eq, Structural, Debug)]
pub enum TileType {
    Green,
    Grass,
    Flower,
    Sand,
    Corruption,
}

/// The texture drawn for each kind of tile.
pub open spec fn texture_of(t: TileType) -> Seq<char> {
    match t {
        TileType::Green => "tile_0000.png"@,
        TileType::Grass => "tile_0001.png"@,
        TileType::Flower => "tile_0002.png"@,
        TileType::Sand => "tile_0003.png"@,
        TileType::Corruption => "corrupted_tile_1.png"@,
    }
}

impl TileType {
    /// The file name of this kind's texture.
    pub fn texture(&self) -> (r: &'static str)
        ensures
            r@ == texture_of(*self),
    {
        match self {
            TileType::Green => "tile_0000.png",
            TileType::Grass => "tile_0001.png",
            TileType::Flower => "tile_0002.png",
            TileType::Sand => "tile_0003.png",
            TileType::Corruption => "corrupted_tile_1.png",
        }
    }

    pub fn is_corrupted_tile(&self) -> (r: bool)
        ensures
            r == (*self is Corruption),
    {
        match self {
            TileType::Corruption => true,
            _ => false,
        }
    }
}

} // verus!
