//! The map adapter: derives the declarations for one tile map.
//!
//! A map is given as the plain data that the adapter reads of it: the stem of
//! the file it came from, and, for each of its tile layers, the size of the
//! layer and the tile ids of its cells.  For a map with exactly one tile
//! layer of finite size the adapter yields two macros that hold the size and
//! one constant array of the tile ids, printed one row of the layer per line.

use crate::decimal::{decimal, decimal_string, signed_decimal, signed_decimal_string};
use crate::ir::{lemma_value_view, views, AstNode, AstNodeView, Value, ValueView};
use vstd::arithmetic::div_mod::lemma_fundamental_div_mod_converse;
use vstd::prelude::*;

verus! {

/// Why a map cannot be converted.
#[derive(Debug, Clone, Copy, PartialEq, Eq)]
pub enum ConvertError {
    /// The map does not have exactly one tile layer.
    TileLayerCount,
    /// The tile layer has no bounds.
    InfiniteMap,
    /// A cell of the tile layer holds no tile.
    MissingTile,
    /// A tile id does not fit in eight bits.
    TileIndexTooLarge,
    /// The map's source has no file stem to name the declarations after.
    MissingFileStem,
}

impl ConvertError {
    /// The message of the error, as a sequence of characters.
    pub open spec fn message_text(self) -> Seq<char> {
        match self {
            ConvertError::TileLayerCount => "Exactly one tile layer is required"@,
            ConvertError::InfiniteMap => "Map must be finite"@,
            ConvertError::MissingTile => "Failed to get tile"@,
            ConvertError::TileIndexTooLarge => "Tile indices cannot exceed 255"@,
            ConvertError::MissingFileStem => "Failed to retrieve file stem from map source"@,
        }
    }

    /// The message of the error.
    pub fn message(&self) -> (text: &'static str)
        ensures
            text@ == self.message_text(),
    {
        match self {
            ConvertError::TileLayerCount => "Exactly one tile layer is required",
            ConvertError::InfiniteMap => "Map must be finite",
            ConvertError::MissingTile => "Failed to get tile",
            ConvertError::TileIndexTooLarge => "Tile indices cannot exceed 255",
            ConvertError::MissingFileStem => "Failed to retrieve file stem from map source",
        }
    }
}

/// What the adapter reads of one tile layer.
#[derive(Debug, PartialEq, Eq)]
pub struct TileLayer {
    /// The number of columns, or `None` for a layer without bounds.
    pub width: Option<u32>,
    /// The number of rows, or `None` for a layer without bounds.
    pub height: Option<u32>,
    /// The tile ids of the cells, row after row; `None` for an empty cell.
    pub tiles: Vec<Option<u32>>,
}

/// View of a [`TileLayer`].
pub struct TileLayerView {
    pub width: Option<u32>,
    pub height: Option<u32>,
    pub tiles: Seq<Option<u32>>,
}

impl View for TileLayer {
    type V = TileLayerView;

    open spec fn view(&self) -> TileLayerView {
        TileLayerView { width: self.width, height: self.height, tiles: self.tiles@ }
    }
}

/// What the adapter reads of a map.
#[derive(Debug, PartialEq, Eq)]
pub struct TileMap {
    /// The stem of the name of the file that the map was loaded from, if it
    /// has one.
    pub file_stem: Option<String>,
    /// The tile layers of the map, in the order of the map's layers.
    pub tile_layers: Vec<TileLayer>,
}

/// View of a [`TileMap`].
pub struct TileMapView {
    pub file_stem: Option<Seq<char>>,
    pub tile_layers: Seq<TileLayerView>,
}

impl View for TileMap {
    type V = TileMapView;

    open spec fn view(&self) -> TileMapView {
        TileMapView {
            file_stem: match self.file_stem {
                Some(stem) => Some(stem@),
                None => None,
            },
            tile_layers: views(self.tile_layers@),
        }
    }
}

/// A size read as a coordinate.  Coordinates are signed 32-bit numbers; a
/// size beyond their range is read as the negative number that has the same
/// bits.
pub open spec fn signed(size: u32) -> int {
    if size <= 0x7fff_ffff {
        size as int
    } else {
        size as int - 0x1_0000_0000
    }
}

/// A tile that the array can hold: the cell is not empty and the tile id
/// fits in eight bits.
pub open spec fn usable(tile: Option<u32>) -> bool {
    tile matches Some(id) && id <= 255
}

/// Position `k` is the first of `tiles` whose tile is not usable.
pub open spec fn first_unusable(tiles: Seq<Option<u32>>, k: int) -> bool {
    &&& 0 <= k < tiles.len()
    &&& !usable(tiles[k])
    &&& forall|j: int| 0 <= j < k ==> usable(#[trigger] tiles[j])
}

/// The literal that stands for a tile in the array: its id in decimal
/// notation.
pub open spec fn tile_literal(tile: Option<u32>) -> ValueView
    recommends
        usable(tile),
{
    ValueView::Literal { value: decimal(tile->0 as nat) }
}

impl TileLayerView {
    /// The number of columns that can be addressed: the width, or none where
    /// the layer has no bounds or its width is no positive coordinate.
    pub open spec fn columns(self) -> nat {
        match self.width {
            Some(width) => if signed(width) > 0 {
                width as nat
            } else {
                0
            },
            None => 0,
        }
    }

    /// The number of rows that can be addressed: the height, or none where
    /// the layer has no bounds or its height is no positive coordinate.
    pub open spec fn lines(self) -> nat {
        match self.height {
            Some(height) => if signed(height) > 0 {
                height as nat
            } else {
                0
            },
            None => 0,
        }
    }

    /// The tile in column `x` of row `y`: `None` where the position lies
    /// outside the layer, where the layer holds nothing for it, and where the
    /// cell is empty.
    pub open spec fn tile_at(self, x: int, y: int) -> Option<u32> {
        if 0 <= x < self.columns() && 0 <= y < self.lines() && x + y * self.columns()
            < self.tiles.len() {
            self.tiles[x + y * self.columns()]
        } else {
            None
        }
    }

    /// The tiles of all cells that can be addressed, row after row.
    pub open spec fn cells(self) -> Seq<Option<u32>> {
        Seq::new(
            self.lines() * self.columns(),
            |k: int| self.tile_at(k % (self.columns() as int), k / (self.columns() as int)),
        )
    }
}

/// The error, if any, that keeps a map from being converted.  The checks are
/// made in this order: the number of tile layers; the bounds of the layer;
/// the cells, row after row, up to the first that is not usable; the file
/// stem.
pub open spec fn failure(map: TileMapView) -> Option<ConvertError> {
    if map.tile_layers.len() != 1 {
        Some(ConvertError::TileLayerCount)
    } else if map.tile_layers[0].width is None || map.tile_layers[0].height is None {
        Some(ConvertError::InfiniteMap)
    } else if exists|k: int| #[trigger]
        first_unusable(map.tile_layers[0].cells(), k) && map.tile_layers[0].cells()[k] is None {
        Some(ConvertError::MissingTile)
    } else if exists|k: int| #[trigger] first_unusable(map.tile_layers[0].cells(), k) {
        Some(ConvertError::TileIndexTooLarge)
    } else if map.file_stem is None {
        Some(ConvertError::MissingFileStem)
    } else {
        None
    }
}

/// The two macros that hold the size of a layer: `<stem>_WIDTH` and
/// `<stem>_HEIGHT`, each with the size read as a coordinate, in decimal
/// notation.
pub open spec fn size_macros(stem: Seq<char>, layer: TileLayerView) -> Seq<AstNodeView>
    recommends
        layer.width is Some,
        layer.height is Some,
{
    seq![
        AstNodeView::Define {
            name: stem + "_WIDTH"@,
            value: signed_decimal(signed(layer.width->0)),
        },
        AstNodeView::Define {
            name: stem + "_HEIGHT"@,
            value: signed_decimal(signed(layer.height->0)),
        },
    ]
}

/// The constant array that holds the tiles of a layer: `<stem>_map`, of
/// element type `uint8_t`, with one literal per cell, row after row, and the
/// layer's width as row width.
pub open spec fn tile_array(stem: Seq<char>, layer: TileLayerView) -> AstNodeView
    recommends
        layer.width is Some,
{
    AstNodeView::Const {
        name: stem + "_map"@,
        c_type: "uint8_t"@,
        value: ValueView::Array {
            values: layer.cells().map_values(|tile: Option<u32>| tile_literal(tile)),
            hint_array_width: layer.width,
        },
    }
}

/// The tile array of a layer can be printed unless the layer's width is
/// zero.
pub proof fn lemma_tile_array_well_formed(stem: Seq<char>, layer: TileLayerView)
    ensures
        tile_array(stem, layer).well_formed() <==> layer.width != Some(0u32),
{
    let values = layer.cells().map_values(|tile: Option<u32>| tile_literal(tile));
    assert forall|i: int| 0 <= i < values.len() implies (#[trigger] values[i]).well_formed() by {}
}

/// At most one position is the first whose tile is not usable.
proof fn lemma_first_unusable_unique(tiles: Seq<Option<u32>>, a: int, b: int)
    requires
        first_unusable(tiles, a),
        first_unusable(tiles, b),
    ensures
        a == b,
{
    if a < b {
        assert(usable(tiles[a]));
    }
    if b < a {
        assert(usable(tiles[b]));
    }
}

/// Reads a size as a coordinate.
fn to_signed(size: u32) -> (coordinate: i32)
    ensures
        coordinate == signed(size),
{
    if size <= 0x7fff_ffff {
        size as i32
    } else {
        (size - 0x8000_0000) as i32 + i32::MIN
    }
}

impl TileLayer {
    /// The tile in column `x` of row `y`, if there is one.
    pub fn get_tile(&self, x: i32, y: i32) -> (tile: Option<u32>)
        ensures
            tile == self@.tile_at(x as int, y as int),
    {
        let (width, height) = match (self.width, self.height) {
            (Some(width), Some(height)) => (width, height),
            _ => {
                return None;
            },
        };
        if x < 0 || y < 0 || x >= to_signed(width) || y >= to_signed(height) {
            return None;
        }
        assert(y as u64 * width as u64 <= 0x7fff_ffff * 0xffff_ffff) by (nonlinear_arith)
            requires
                0 <= y <= 0x7fff_ffff,
                width <= 0xffff_ffff,
        ;
        let index: u64 = x as u64 + y as u64 * width as u64;
        if index < self.tiles.len() as u64 {
            self.tiles[index as usize]
        } else {
            None
        }
    }
}

/// The literal that stands for a tile, or the reason why the tile cannot be
/// held.
pub fn tile_value(tile: Option<u32>) -> (res: Result<Value, ConvertError>)
    ensures
        match res {
            Ok(value) => usable(tile) && value@ == tile_literal(tile),
            Err(error) => !usable(tile) && error == if tile is None {
                ConvertError::MissingTile
            } else {
                ConvertError::TileIndexTooLarge
            },
        },
{
    let id = match tile {
        Some(id) => id,
        None => {
            return Err(ConvertError::MissingTile);
        },
    };
    match u8::try_from(id) {
        Ok(index) => Ok(Value::Literal { value: decimal_string(index as u64) }),
        Err(_) => Err(ConvertError::TileIndexTooLarge),
    }
}

/// Derives the declarations for a map: the macros that hold its size, and
/// the array of its tiles.
#[verifier::loop_isolation(false)]
pub fn build_tile_data(map: &TileMap) -> (res: Result<(Vec<AstNode>, AstNode), ConvertError>)
    ensures
        match res {
            Ok((defines, data)) => {
                &&& failure(map@) is None
                &&& views(defines@) == size_macros(map@.file_stem->0, map@.tile_layers[0])
                &&& data@ == tile_array(map@.file_stem->0, map@.tile_layers[0])
            },
            Err(error) => failure(map@) == Some(error),
        },
{
    if map.tile_layers.len() != 1 {
        return Err(ConvertError::TileLayerCount);
    }
    let tiles = &map.tile_layers[0];
    assert(map@.tile_layers[0] == tiles@);
    let (layer_width, layer_height) = match (tiles.width, tiles.height) {
        (Some(width), Some(height)) => (width, height),
        _ => {
            return Err(ConvertError::InfiniteMap);
        },
    };
    let width = to_signed(layer_width);
    let height = to_signed(layer_height);
    let ghost cells = tiles@.cells();
    let ghost columns = tiles@.columns();
    let ghost lines = tiles@.lines();
    let mut array_values: Vec<Value> = Vec::new();
    let mut y: i32 = 0;
    assert(views(array_values@) =~= cells.take(0).map_values(
        |tile: Option<u32>| tile_literal(tile),
    ));
    assert(0 * columns == 0) by (nonlinear_arith);
    while y < height
        invariant
            cells == tiles@.cells(),
            columns == tiles@.columns(),
            lines == tiles@.lines(),
            tiles.width == Some(layer_width),
            tiles.height == Some(layer_height),
            width == signed(layer_width),
            height == signed(layer_height),
            0 <= y,
            height > 0 ==> y <= height,
            y * columns <= cells.len(),
            views(array_values@) == cells.take(y * columns).map_values(
                |tile: Option<u32>| tile_literal(tile),
            ),
            forall|j: int| 0 <= j < y * columns ==> usable(#[trigger] cells[j]),
        decreases height - y,
    {
        let mut x: i32 = 0;
        while x < width
            invariant
                cells == tiles@.cells(),
                columns == tiles@.columns(),
                lines == tiles@.lines(),
                tiles.width == Some(layer_width),
                tiles.height == Some(layer_height),
                width == signed(layer_width),
                height == signed(layer_height),
                0 <= y < height,
                0 <= x,
                width > 0 ==> x <= width,
                y * columns + x <= cells.len(),
                views(array_values@) == cells.take(y * columns + x).map_values(
                    |tile: Option<u32>| tile_literal(tile),
                ),
                forall|j: int| 0 <= j < y * columns + x ==> usable(#[trigger] cells[j]),
            decreases width - x,
        {
            let ghost k = y * columns + x;
            let ghost before = views(array_values@);
            proof {
                assert(k + 1 <= lines * columns) by (nonlinear_arith)
                    requires
                        k == y * columns + x,
                        0 <= x < columns,
                        0 <= y < lines,
                ;
                lemma_fundamental_div_mod_converse(k, columns as int, y as int, x as int);
                assert(cells[k] == tiles@.tile_at(x as int, y as int));
            }
            let tile = tiles.get_tile(x, y);
            let value = match tile_value(tile) {
                Ok(value) => value,
                Err(error) => {
                    proof {
                        assert(first_unusable(cells, k));
                        assert forall|j: int| first_unusable(cells, j) implies j == k by {
                            lemma_first_unusable_unique(cells, j, k);
                        }
                    }
                    return Err(error);
                },
            };
            array_values.push(value);
            x += 1;
            proof {
                assert(views(array_values@) =~= before.push(value@));
                assert(cells.take(k + 1).map_values(|tile: Option<u32>| tile_literal(tile))
                    =~= before.push(tile_literal(cells[k])));
            }
        }
        proof {
            assert((y + 1) * columns == y * columns + columns) by (nonlinear_arith);
            if width <= 0 {
                assert(columns == 0);
            }
        }
        y += 1;
    }
    proof {
        if height > 0 {
            assert(y * columns == cells.len());
        } else {
            assert(cells.len() == 0) by (nonlinear_arith)
                requires
                    cells.len() == lines * columns,
                    lines == 0,
            ;
        }
        assert(cells.take(cells.len() as int) =~= cells);
        assert forall|j: int| !first_unusable(cells, j) by {}
    }
    let stem = match &map.file_stem {
        Some(stem) => stem,
        None => {
            return Err(ConvertError::MissingFileStem);
        },
    };
    let mut array_name = stem.clone();
    array_name.append("_map");
    let array = Value::Array { values: array_values, hint_array_width: Some(layer_width) };
    proof {
        lemma_value_view(array);
    }
    let tile_data = AstNode::Const {
        c_type: String::from_str("uint8_t"),
        name: array_name,
        value: array,
    };
    let mut width_name = stem.clone();
    width_name.append("_WIDTH");
    let mut height_name = stem.clone();
    height_name.append("_HEIGHT");
    let mut header_data: Vec<AstNode> = Vec::new();
    header_data.push(AstNode::Define { name: width_name, value: signed_decimal_string(width as i64) });
    header_data.push(
        AstNode::Define { name: height_name, value: signed_decimal_string(height as i64) },
    );
    proof {
        assert(views(header_data@) =~= size_macros(stem@, tiles@));
    }
    Ok((header_data, tile_data))
}

/// Derives the declarations for a map, as the two sequences that are printed
/// to its header and to its source file: the macros that hold its size, and
/// the one array of its tiles.
pub fn build_ast(map: &TileMap) -> (res: Result<(Vec<AstNode>, Vec<AstNode>), ConvertError>)
    ensures
        match res {
            Ok((header, source)) => {
                &&& failure(map@) is None
                &&& views(header@) == size_macros(map@.file_stem->0, map@.tile_layers[0])
                &&& views(source@) == seq![tile_array(map@.file_stem->0, map@.tile_layers[0])]
            },
            Err(error) => failure(map@) == Some(error),
        },
{
    match build_tile_data(map) {
        Ok((map_defines, data)) => {
            let mut source: Vec<AstNode> = Vec::new();
            source.push(data);
            assert(views(source@) =~= seq![data@]);
            Ok((map_defines, source))
        },
        Err(error) => Err(error),
    }
}

} // verus!
