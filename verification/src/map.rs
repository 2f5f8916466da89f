//! Top-down text maps of the terrain around the player.
use vstd::prelude::*;

use crate::grid::{Block, BlockPos, BlockSource, Voxel};
use crate::palette::{map_symbol, minimap_character};

verus! {

/// How many blocks below the eye the navigation map looks for terrain.
pub const SURFACE_SCAN_DEPTH: i32 = 8;

/// The radius that a map is drawn with: at least one block.
pub open spec fn drawn_radius(radius: i32) -> int {
    if radius > 1 {
        radius as int
    } else {
        1
    }
}

/// Whether all cells of a map have coordinates.
pub open spec fn map_fits(center: BlockPos, radius: i32) -> bool {
    let r = drawn_radius(radius);
    &&& i32::MIN <= center.x - r
    &&& center.x + r <= i32::MAX
    &&& i32::MIN <= center.z - r
    &&& center.z + r <= i32::MAX
}

/// The row of a map at one z coordinate, west to east, with its line end.
pub open spec fn row_text(symbol: spec_fn(int, int) -> char, center: BlockPos, r: int, z: int) -> Seq<
    char,
> {
    Seq::new((2 * r + 1) as nat, |i: int| symbol(center.x - r + i, z)).push('\n')
}

/// The first `count` rows of a map, north to south.
pub open spec fn rows_text(
    symbol: spec_fn(int, int) -> char,
    center: BlockPos,
    r: int,
    count: nat,
) -> Seq<char>
    decreases count,
{
    if count == 0 {
        Seq::empty()
    } else {
        rows_text(symbol, center, r, (count - 1) as nat) + row_text(
            symbol,
            center,
            r,
            center.z - r + count - 1,
        )
    }
}

/// A whole map: every row from `r` blocks north to `r` blocks south.
pub open spec fn map_text(symbol: spec_fn(int, int) -> char, center: BlockPos, r: int) -> Seq<char> {
    rows_text(symbol, center, r, (2 * r + 1) as nat)
}

/// The symbol of one cell of a layer.
pub open spec fn layer_symbol<S: BlockSource>(source: &S, position: BlockPos) -> char {
    match source.voxel(position) {
        Voxel::Air => ' ',
        Voxel::Unloaded => '?',
        Voxel::Solid(block) => map_symbol(block.id@),
    }
}

/// The symbols of the layer map: the player in the middle, the blocks of the
/// player's layer around.
pub open spec fn layer_symbols<S: BlockSource>(source: &S, center: BlockPos) -> spec_fn(
    int,
    int,
) -> char {
    |x: int, z: int|
        if x == center.x && z == center.z {
            '@'
        } else {
            layer_symbol(source, BlockPos { x: x as i32, y: center.y, z: z as i32 })
        }
}

/// The cell `d` blocks below another one.
pub open spec fn below(top: BlockPos, d: int) -> BlockPos {
    BlockPos { y: (top.y - d) as i32, ..top }
}

/// Whether the cell `d` blocks below `top` is the first solid one within
/// `depth` blocks.
pub open spec fn surface_at<S: BlockSource>(source: &S, top: BlockPos, depth: int, d: int) -> bool {
    &&& 0 <= d <= depth
    &&& source.voxel(below(top, d)) is Solid
    &&& forall|e: int| 0 <= e < d ==> !((#[trigger] source.voxel(below(top, e))) is Solid)
}

/// The symbol of a column: its first solid block at or below `top`, else
/// whether part of the column is unloaded.
pub open spec fn column_symbol<S: BlockSource>(source: &S, top: BlockPos, depth: int) -> char {
    if exists|d: int| surface_at(source, top, depth, d) {
        let d = choose|d: int| surface_at(source, top, depth, d);
        match source.voxel(below(top, d)) {
            Voxel::Solid(block) => map_symbol(block.id@),
            _ => ' ',
        }
    } else if exists|d: int| 0 <= d <= depth && #[trigger] source.voxel(below(top, d)) is Unloaded {
        '?'
    } else {
        ' '
    }
}

/// The symbol of a heading in whole degrees. Zero faces south, which is down
/// on the map; minus ninety faces east, which is to the right.
pub open spec fn heading_symbol(degrees: int) -> char {
    let yaw = degrees % 360;
    if yaw < 45 || 315 <= yaw {
        'v'
    } else if yaw < 135 {
        '<'
    } else if yaw < 225 {
        '^'
    } else {
        '>'
    }
}

/// The symbols of the navigation map: the heading in the middle, the surface
/// of each column around.
pub open spec fn navigation_symbols<S: BlockSource>(
    source: &S,
    center: BlockPos,
    heading: int,
) -> spec_fn(int, int) -> char {
    |x: int, z: int|
        if x == center.x && z == center.z {
            heading_symbol(heading)
        } else {
            column_symbol(
                source,
                BlockPos { x: x as i32, y: center.y, z: z as i32 },
                SURFACE_SCAN_DEPTH as int,
            )
        }
}

/// The layer map around a position.
pub open spec fn layer_map_text<S: BlockSource>(source: &S, center: BlockPos, radius: i32) -> Seq<
    char,
> {
    map_text(layer_symbols(source, center), center, drawn_radius(radius))
}

/// The navigation map around a position.
pub open spec fn navigation_map_text<S: BlockSource>(
    source: &S,
    center: BlockPos,
    heading: int,
    radius: i32,
) -> Seq<char> {
    map_text(navigation_symbols(source, center, heading), center, drawn_radius(radius))
}

/// Draws a map whose cells have the symbols that `symbol_at` gives.
fn draw_map<F: Fn(i32, i32) -> char>(
    center: BlockPos,
    radius: i32,
    symbol_at: F,
    Ghost(symbols): Ghost<spec_fn(int, int) -> char>,
) -> (output: String)
    requires
        map_fits(center, radius),
        forall|x: i32, z: i32| #[trigger] call_requires(symbol_at, (x, z)),
        forall|x: i32, z: i32, symbol: char| #[trigger]
            call_ensures(symbol_at, (x, z), symbol) ==> symbol == symbols(x as int, z as int),
    ensures
        output@ == map_text(symbols, center, drawn_radius(radius)),
{
    let radius: i64 = if radius > 1 {
        radius as i64
    } else {
        1
    };
    let mut output = String::new();
    let mut row: i64 = 0;
    while row < 2 * radius + 1
        invariant
            0 <= row <= 2 * radius + 1,
            1 <= radius <= i32::MAX,
            i32::MIN <= center.x - radius,
            center.x + radius <= i32::MAX,
            i32::MIN <= center.z - radius,
            center.z + radius <= i32::MAX,
            forall|x: i32, z: i32| #[trigger] call_requires(symbol_at, (x, z)),
            forall|x: i32, z: i32, symbol: char| #[trigger]
                call_ensures(symbol_at, (x, z), symbol) ==> symbol == symbols(x as int, z as int),
            output@ == rows_text(symbols, center, radius as int, row as nat),
        decreases 2 * radius + 1 - row,
    {
        let z: i32 = (center.z as i64 - radius + row) as i32;
        let ghost above = output@;
        let mut column: i64 = 0;
        while column < 2 * radius + 1
            invariant
                0 <= column <= 2 * radius + 1,
                1 <= radius <= i32::MAX,
                i32::MIN <= center.x - radius,
                center.x + radius <= i32::MAX,
                z == center.z - radius + row,
                forall|x: i32, z: i32| #[trigger] call_requires(symbol_at, (x, z)),
                forall|x: i32, z: i32, symbol: char| #[trigger]
                    call_ensures(symbol_at, (x, z), symbol) ==> symbol == symbols(
                        x as int,
                        z as int,
                    ),
                output@ == above + Seq::new(
                    column as nat,
                    |i: int| symbols(center.x - radius + i, z as int),
                ),
            decreases 2 * radius + 1 - column,
        {
            let x: i32 = (center.x as i64 - radius + column) as i32;
            output.push(symbol_at(x, z));
            column = column + 1;
            assert(output@ =~= above + Seq::new(
                column as nat,
                |i: int| symbols(center.x - radius + i, z as int),
            ));
        }
        output.push('\n');
        row = row + 1;
        assert(output@ =~= above + row_text(symbols, center, radius as int, z as int));
    }
    output
}

/// A small ASCII top-down diagnostic view of a loaded Y layer.
pub fn minimap<S: BlockSource>(source: &S, center: BlockPos, radius: i32) -> (output: String)
    requires
        map_fits(center, radius),
    ensures
        output@ == layer_map_text(source, center, radius),
{
    let symbol_at = |x: i32, z: i32| -> (symbol: char)
        ensures
            symbol == layer_symbols(source, center)(x as int, z as int),
        {
            if x == center.x && z == center.z {
                '@'
            } else {
                match source.voxel_at(BlockPos::new(x, center.y, z)) {
                    Voxel::Air => ' ',
                    Voxel::Unloaded => '?',
                    Voxel::Solid(block) => minimap_character(block.id),
                }
            }
        };
    draw_map(center, radius, symbol_at, Ghost(layer_symbols(source, center)))
}

/// The symbol of the terrain in one column.
pub fn navigation_character<S: BlockSource>(source: &S, top: BlockPos, depth: i32) -> (symbol: char)
    requires
        i32::MIN <= top.y - depth,
    ensures
        symbol == column_symbol(source, top, depth as int),
{
    let mut saw_unloaded = false;
    let mut d: i64 = 0;
    while d <= depth as i64
        invariant
            0 <= d,
            d <= depth + 1 || d == 0,
            i32::MIN <= top.y - depth,
            forall|e: int| 0 <= e < d ==> !((#[trigger] source.voxel(below(top, e))) is Solid),
            saw_unloaded == exists|e: int|
                0 <= e < d && (#[trigger] source.voxel(below(top, e))) is Unloaded,
        decreases depth + 1 - d,
    {
        let position = BlockPos::new(top.x, (top.y as i64 - d) as i32, top.z);
        assert(position == below(top, d as int));
        match source.voxel_at(position) {
            Voxel::Solid(block) => {
                assert(surface_at(source, top, depth as int, d as int));
                let ghost chosen = choose|e: int| surface_at(source, top, depth as int, e);
                assert(chosen == d);
                return minimap_character(block.id);
            },
            Voxel::Unloaded => {
                saw_unloaded = true;
            },
            Voxel::Air => {},
        }
        d = d + 1;
    }
    assert(!exists|e: int| surface_at(source, top, depth as int, e));
    if saw_unloaded {
        '?'
    } else {
        ' '
    }
}

/// The symbol of a heading in whole degrees.
pub fn navigation_heading(yaw_degrees: i32) -> (symbol: char)
    ensures
        symbol == heading_symbol(yaw_degrees as int),
{
    let yaw: i32 = yaw_degrees.checked_rem_euclid(360).unwrap();
    if yaw < 45 || 315 <= yaw {
        'v'
    } else if yaw < 135 {
        '<'
    } else if yaw < 225 {
        '^'
    } else {
        '>'
    }
}

/// A compact navigation map that projects nearby terrain beneath the camera.
///
/// North (-Z) is at the top of the returned map. For each column, the first
/// solid block at or below `center.y` is shown, which makes the map useful
/// while standing above terrain instead of displaying an empty eye-level air
/// slice. `?` still means that no loaded terrain was available in the scan.
pub fn navigation_minimap<S: BlockSource>(
    source: &S,
    center: BlockPos,
    yaw_degrees: i32,
    radius: i32,
) -> (output: String)
    requires
        map_fits(center, radius),
        i32::MIN + SURFACE_SCAN_DEPTH <= center.y,
    ensures
        output@ == navigation_map_text(source, center, yaw_degrees as int, radius),
{
    let symbol_at = |x: i32, z: i32| -> (symbol: char)
        ensures
            symbol == navigation_symbols(source, center, yaw_degrees as int)(x as int, z as int),
        {
            if x == center.x && z == center.z {
                navigation_heading(yaw_degrees)
            } else {
                navigation_character(source, BlockPos::new(x, center.y, z), SURFACE_SCAN_DEPTH)
            }
        };
    draw_map(
        center,
        radius,
        symbol_at,
        Ghost(navigation_symbols(source, center, yaw_degrees as int)),
    )
}

/// A full turn does not change the heading.
pub proof fn law_heading_repeats(degrees: int, turns: int)
    ensures
        heading_symbol(degrees + 360 * turns) == heading_symbol(degrees),
{
    assert((degrees + 360 * turns) % 360 == degrees % 360);
}

/// A quarter turn to the right turns the heading to the right.
pub proof fn law_heading_turns(degrees: int)
    ensures
        heading_symbol(degrees + 90) == (match heading_symbol(degrees) {
            'v' => '<',
            '<' => '^',
            '^' => '>',
            _ => 'v',
        }),
{
}

/// A column shows its surface, the first solid block at or below the top,
/// whatever lies below that block.
pub proof fn law_columns_show_their_surface<S: BlockSource>(
    source: &S,
    top: BlockPos,
    depth: int,
    y: i32,
    block: Block,
)
    requires
        i32::MIN <= top.y - depth,
        top.y - depth <= y <= top.y,
        source.voxel(BlockPos { x: top.x, y, z: top.z }) == Voxel::Solid(block),
        forall|above: i32|
            y < above <= top.y ==> !(#[trigger] source.voxel(
                BlockPos { x: top.x, y: above, z: top.z },
            ) is Solid),
    ensures
        column_symbol(source, top, depth) == map_symbol(block.id@),
{
    let d = top.y - y;
    assert(below(top, d) == BlockPos { x: top.x, y, z: top.z });
    assert forall|e: int| 0 <= e < d implies !((#[trigger] source.voxel(
        below(top, e),
    )) is Solid) by {
        let above = (top.y - e) as i32;
        assert(below(top, e) == BlockPos { x: top.x, y: above, z: top.z });
        assert(!(source.voxel(BlockPos { x: top.x, y: above, z: top.z }) is Solid));
    }
    assert(surface_at(source, top, depth, d));
    let found = choose|found: int| surface_at(source, top, depth, found);
    assert(surface_at(source, top, depth, found));
    if found < d {
        assert(!(source.voxel(below(top, found)) is Solid));
    }
    if d < found {
        assert(!(source.voxel(below(top, d)) is Solid));
    }
}

/// A column without a solid block down to the scan depth shows a question mark
/// if part of it is unloaded, and is blank if all of it is air.
pub proof fn law_columns_without_surface<S: BlockSource>(source: &S, top: BlockPos, depth: int)
    requires
        i32::MIN <= top.y - depth,
        forall|y: i32|
            top.y - depth <= y <= top.y ==> !(#[trigger] source.voxel(
                BlockPos { x: top.x, y, z: top.z },
            ) is Solid),
    ensures
        (exists|y: i32|
            top.y - depth <= y <= top.y && #[trigger] source.voxel(
                BlockPos { x: top.x, y, z: top.z },
            ) == Voxel::Unloaded) ==> column_symbol(source, top, depth) == '?',
        (forall|y: i32|
            top.y - depth <= y <= top.y ==> #[trigger] source.voxel(
                BlockPos { x: top.x, y, z: top.z },
            ) == Voxel::Air) ==> column_symbol(source, top, depth) == ' ',
{
    assert forall|d: int| !surface_at(source, top, depth, d) by {
        if 0 <= d <= depth {
            let y = (top.y - d) as i32;
            assert(below(top, d) == BlockPos { x: top.x, y, z: top.z });
            assert(!(source.voxel(BlockPos { x: top.x, y, z: top.z }) is Solid));
        }
    }
    if exists|y: i32|
        top.y - depth <= y <= top.y && #[trigger] source.voxel(BlockPos { x: top.x, y, z: top.z })
            == Voxel::Unloaded {
        let y = choose|y: i32|
            top.y - depth <= y <= top.y && #[trigger] source.voxel(
                BlockPos { x: top.x, y, z: top.z },
            ) == Voxel::Unloaded;
        assert(below(top, top.y - y) == BlockPos { x: top.x, y, z: top.z });
        assert(source.voxel(below(top, top.y - y)) is Unloaded);
    }
    if forall|y: i32|
        top.y - depth <= y <= top.y ==> #[trigger] source.voxel(BlockPos { x: top.x, y, z: top.z })
            == Voxel::Air {
        assert forall|d: int| 0 <= d <= depth implies !(#[trigger] source.voxel(
            below(top, d),
        ) is Unloaded) by {
            let y = (top.y - d) as i32;
            assert(below(top, d) == BlockPos { x: top.x, y, z: top.z });
            assert(source.voxel(BlockPos { x: top.x, y, z: top.z }) == Voxel::Air);
        }
    }
}

/// The cells of the layer map show the blocks of the player's own layer, and
/// the player in the middle.
pub proof fn law_layer_map_shows_the_layer<S: BlockSource>(
    source: &S,
    center: BlockPos,
    x: i32,
    z: i32,
)
    ensures
        ({
            let symbol = layer_symbols(source, center)(x as int, z as int);
            if x == center.x && z == center.z {
                symbol == '@'
            } else {
                match source.voxel(BlockPos { x, y: center.y, z }) {
                    Voxel::Air => symbol == ' ',
                    Voxel::Unloaded => symbol == '?',
                    Voxel::Solid(block) => symbol == map_symbol(block.id@),
                }
            }
        }),
{
}

/// The cells of the navigation map show the surface within eight blocks below
/// the eye, and the heading in the middle.
pub proof fn law_navigation_map_shows_the_surface<S: BlockSource>(
    source: &S,
    center: BlockPos,
    heading: int,
    x: i32,
    y: i32,
    z: i32,
    block: Block,
)
    requires
        i32::MIN + 8 <= center.y,
        center.y - 8 <= y <= center.y,
        source.voxel(BlockPos { x, y, z }) == Voxel::Solid(block),
        forall|above: i32|
            y < above <= center.y ==> !(#[trigger] source.voxel(
                BlockPos { x, y: above, z },
            ) is Solid),
    ensures
        navigation_symbols(source, center, heading)(x as int, z as int) == (if x == center.x && z
            == center.z {
            heading_symbol(heading)
        } else {
            map_symbol(block.id@)
        }),
{
    let top = BlockPos { x, y: center.y, z };
    law_columns_show_their_surface(source, top, 8, y, block);
}

/// The heading is the quarter of the circle that the player faces: south, down
/// on the map, around zero degrees, then west, north and east.
pub proof fn law_headings_are_quarters(quarter: int, degrees: int)
    requires
        90 * quarter - 45 <= degrees < 90 * quarter + 45,
    ensures
        quarter % 4 == 0 ==> heading_symbol(degrees) == 'v',
        quarter % 4 == 1 ==> heading_symbol(degrees) == '<',
        quarter % 4 == 2 ==> heading_symbol(degrees) == '^',
        quarter % 4 == 3 ==> heading_symbol(degrees) == '>',
{
}

/// A map is drawn with the radius that is asked for, but at least one.
pub proof fn law_map_radius(radius: i32)
    ensures
        radius >= 1 ==> drawn_radius(radius) == radius,
        radius < 1 ==> drawn_radius(radius) == 1,
{
}

/// How long the first rows of a map are.
proof fn lemma_rows_length(symbol: spec_fn(int, int) -> char, center: BlockPos, r: int, count: nat)
    requires
        0 <= r,
    ensures
        rows_text(symbol, center, r, count).len() == count * (2 * r + 2),
    decreases count,
{
    if count > 0 {
        lemma_rows_length(symbol, center, r, (count - 1) as nat);
        assert((count - 1) * (2 * r + 2) + (2 * r + 2) == count * (2 * r + 2)) by (nonlinear_arith);
    } else {
        assert(0 * (2 * r + 2) == 0) by (nonlinear_arith);
    }
}

/// A row of a map is part of all longer beginnings of it.
proof fn lemma_row_stays(
    symbol: spec_fn(int, int) -> char,
    center: BlockPos,
    r: int,
    count: nat,
    k: int,
    i: int,
)
    requires
        0 <= r,
        0 <= k < count,
        0 <= i <= 2 * r + 1,
    ensures
        0 <= k * (2 * r + 2) + i < rows_text(symbol, center, r, count).len(),
        rows_text(symbol, center, r, count)[k * (2 * r + 2) + i] == row_text(
            symbol,
            center,
            r,
            center.z - r + k,
        )[i],
    decreases count,
{
    let before = (count - 1) as nat;
    lemma_rows_length(symbol, center, r, count);
    lemma_rows_length(symbol, center, r, before);
    assert(k * (2 * r + 2) + i < count * (2 * r + 2) && 0 <= k * (2 * r + 2)) by (nonlinear_arith)
        requires
            0 <= r,
            0 <= k < count,
            0 <= i <= 2 * r + 1,
    ;
    if k < before {
        lemma_row_stays(symbol, center, r, before, k, i);
    }
}

/// A map has its rows from north to south and each row from west to east: `k`
/// rows down and `i` columns to the right stands the symbol of the cell `k`
/// blocks south and `i` blocks east of the north-western corner.
pub proof fn law_maps_face_north(
    symbol: spec_fn(int, int) -> char,
    center: BlockPos,
    r: int,
    k: int,
    i: int,
)
    requires
        0 <= r,
        0 <= k <= 2 * r,
        0 <= i <= 2 * r + 1,
    ensures
        map_text(symbol, center, r).len() == (2 * r + 1) * (2 * r + 2),
        i <= 2 * r ==> map_text(symbol, center, r)[k * (2 * r + 2) + i] == symbol(
            center.x - r + i,
            center.z - r + k,
        ),
        i == 2 * r + 1 ==> map_text(symbol, center, r)[k * (2 * r + 2) + i] == '\n',
{
    lemma_rows_length(symbol, center, r, (2 * r + 1) as nat);
    lemma_row_stays(symbol, center, r, (2 * r + 1) as nat, k, i);
}

/// The navigation map looks no deeper than eight blocks below the eye: a column
/// without a solid block down to there is blank, or unknown if part of that is
/// unloaded, whatever lies below.
pub proof fn law_navigation_map_looks_eight_blocks_down<S: BlockSource>(
    source: &S,
    center: BlockPos,
    heading: int,
    x: i32,
    z: i32,
)
    requires
        i32::MIN + 8 <= center.y,
        !(x == center.x && z == center.z),
        forall|y: i32|
            center.y - 8 <= y <= center.y ==> !(#[trigger] source.voxel(
                BlockPos { x, y, z },
            ) is Solid),
    ensures
        ({
            let symbol = navigation_symbols(source, center, heading)(x as int, z as int);
            &&& symbol == '?' || symbol == ' '
            &&& (exists|y: i32|
                center.y - 8 <= y <= center.y && #[trigger] source.voxel(BlockPos { x, y, z })
                    == Voxel::Unloaded) ==> symbol == '?'
            &&& (forall|y: i32|
                center.y - 8 <= y <= center.y ==> #[trigger] source.voxel(BlockPos { x, y, z })
                    == Voxel::Air) ==> symbol == ' '
        }),
{
    let top = BlockPos { x, y: center.y, z };
    law_columns_without_surface(source, top, 8);
    assert forall|d: int| !surface_at(source, top, 8, d) by {
        if 0 <= d <= 8 {
            let y = (center.y - d) as i32;
            assert(below(top, d) == BlockPos { x, y, z });
            assert(!(source.voxel(BlockPos { x, y, z }) is Solid));
        }
    }
}

/// A map can be drawn wherever all of its cells have coordinates.
pub proof fn law_maps_can_be_drawn(center: BlockPos, radius: i32)
    requires
        1 <= radius,
        i32::MIN + radius <= center.x <= i32::MAX - radius,
        i32::MIN + radius <= center.z <= i32::MAX - radius,
    ensures
        map_fits(center, radius),
{
}

/// The layer map around the player, of radius `r`: `k` rows down and `i`
/// columns to the right stands the block of the player's layer that lies there,
/// counted from the north-western corner, and the player in the middle.
pub proof fn law_layer_map_is_laid_out<S: BlockSource>(
    source: &S,
    center: BlockPos,
    r: i32,
    k: int,
    i: int,
)
    requires
        map_fits(center, r),
        r >= 1,
        0 <= k <= 2 * r,
        0 <= i <= 2 * r,
    ensures
        ({
            let symbol = layer_map_text(source, center, r)[k * (2 * r + 2) + i];
            if k == r && i == r {
                symbol == '@'
            } else {
                match source.voxel(
                    BlockPos {
                        x: (center.x - r + i) as i32,
                        y: center.y,
                        z: (center.z - r + k) as i32,
                    },
                ) {
                    Voxel::Air => symbol == ' ',
                    Voxel::Unloaded => symbol == '?',
                    Voxel::Solid(block) => symbol == map_symbol(block.id@),
                }
            }
        }),
        layer_map_text(source, center, r).len() == (2 * r + 1) * (2 * r + 2),
{
    law_maps_face_north(layer_symbols(source, center), center, r as int, k, i);
    law_layer_map_shows_the_layer(
        source,
        center,
        (center.x - r + i) as i32,
        (center.z - r + k) as i32,
    );
}

/// The navigation map around the player, of radius `r`: `k` rows down and `i`
/// columns to the right stands the surface of the column that lies there, and
/// the heading in the middle.
pub proof fn law_navigation_map_is_laid_out<S: BlockSource>(
    source: &S,
    center: BlockPos,
    heading: int,
    r: i32,
    k: int,
    i: int,
    y: i32,
    block: Block,
)
    requires
        map_fits(center, r),
        r >= 1,
        0 <= k <= 2 * r,
        0 <= i <= 2 * r,
        i32::MIN + 8 <= center.y,
        center.y - 8 <= y <= center.y,
        source.voxel(
            BlockPos { x: (center.x - r + i) as i32, y, z: (center.z - r + k) as i32 },
        ) == Voxel::Solid(block),
        forall|above: i32|
            y < above <= center.y ==> !(#[trigger] source.voxel(
                BlockPos { x: (center.x - r + i) as i32, y: above, z: (center.z - r + k) as i32 },
            ) is Solid),
    ensures
        navigation_map_text(source, center, heading, r)[k * (2 * r + 2) + i] == (if k == r && i
            == r {
            heading_symbol(heading)
        } else {
            map_symbol(block.id@)
        }),
        navigation_map_text(source, center, heading, r).len() == (2 * r + 1) * (2 * r + 2),
{
    law_maps_face_north(navigation_symbols(source, center, heading), center, r as int, k, i);
    law_navigation_map_shows_the_surface(
        source,
        center,
        heading,
        (center.x - r + i) as i32,
        y,
        (center.z - r + k) as i32,
        block,
    );
}

} // verus!
