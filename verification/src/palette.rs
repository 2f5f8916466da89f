//! Colours, opacity and map symbols of Minecraft block families.
use vstd::prelude::*;

use crate::text::{chars_of, contains_run, contains_text, same_text};

verus! {

/// An sRGB terminal color.
#[derive(Clone, Copy, Debug, Default, PartialEq, Eq, Structural)]
pub struct Rgb {
    pub r: u8,
    pub g: u8,
    pub b: u8,
}

/// The color with the given channels.
pub open spec fn rgb(r: u8, g: u8, b: u8) -> Rgb {
    Rgb { r, g, b }
}

impl Rgb {
    pub fn new(r: u8, g: u8, b: u8) -> (color: Self)
        ensures
            color == rgb(r, g, b),
    {
        Rgb { r, g, b }
    }
}

/// How a block is drawn by the terminal renderer.
#[derive(Clone, Copy, Debug, PartialEq, Eq)]
pub struct BlockAppearance {
    pub color: Rgb,
    /// Percentage. 100 means a ray stops at the block. Lower values are
    /// front-to-back composited with the scene behind it.
    pub opacity: u8,
    /// A full-frame tint and its percentage, used only when the camera is
    /// inside this material.
    pub camera_overlay: Option<(Rgb, u8)>,
}

/// A surface at which a ray stops.
pub open spec fn opaque_surface(color: Rgb) -> BlockAppearance {
    BlockAppearance { color, opacity: 100, camera_overlay: None }
}

/// A surface that shows part of what is behind it.
pub open spec fn translucent_surface(color: Rgb, opacity: u8) -> BlockAppearance {
    BlockAppearance { color, opacity, camera_overlay: None }
}

/// A surface that also tints the view of a camera inside it.
pub open spec fn tinted_surface(
    color: Rgb,
    opacity: u8,
    overlay: Rgb,
    overlay_opacity: u8,
) -> BlockAppearance {
    BlockAppearance { color, opacity, camera_overlay: Some((overlay, overlay_opacity)) }
}

/// Whether a ray continues behind a surface.
pub open spec fn translucent(appearance: BlockAppearance) -> bool {
    appearance.opacity < 100
}

impl BlockAppearance {
    fn opaque(color: Rgb) -> (appearance: Self)
        ensures
            appearance == opaque_surface(color),
    {
        BlockAppearance { color, opacity: 100, camera_overlay: None }
    }

    fn translucent(color: Rgb, opacity: u8) -> (appearance: Self)
        ensures
            appearance == translucent_surface(color, opacity),
    {
        BlockAppearance { color, opacity, camera_overlay: None }
    }

    fn with_overlay(color: Rgb, opacity: u8, overlay: Rgb, overlay_opacity: u8) -> (appearance:
        Self)
        ensures
            appearance == tinted_surface(color, opacity, overlay, overlay_opacity),
    {
        BlockAppearance { color, opacity, camera_overlay: Some((overlay, overlay_opacity)) }
    }

    /// Whether a ray continues behind this surface.
    pub fn is_translucent(self) -> (shows: bool)
        ensures
            shows == translucent(self),
    {
        self.opacity < 100
    }
}

/// The palette: the first matching line decides. A family is matched by its
/// whole identifier or by a part of it.
pub open spec fn appearance_of(id: Seq<char>) -> BlockAppearance {
    if id == "water"@ || id == "bubble_column"@ {
        tinted_surface(rgb(48, 105, 192), 36, rgb(25, 78, 150), 46)
    } else if id == "lava"@ {
        tinted_surface(rgb(246, 105, 27), 68, rgb(220, 73, 18), 58)
    } else if contains_run(id, "glass"@) {
        translucent_surface(rgb(170, 212, 228), 30)
    } else if contains_run(id, "ice"@) {
        translucent_surface(rgb(144, 195, 220), 42)
    } else if id == "grass_block"@ || id == "short_grass"@ || id == "fern"@ || id == "moss_block"@ {
        opaque_surface(rgb(94, 159, 53))
    } else if id == "dirt"@ || id == "coarse_dirt"@ || id == "rooted_dirt"@ || id == "farmland"@
        || id == "mud"@ {
        opaque_surface(rgb(126, 92, 57))
    } else if id == "stone"@ || id == "cobblestone"@ || id == "andesite"@ || id == "diorite"@
        || id == "granite"@ {
        opaque_surface(rgb(125, 125, 125))
    } else if id == "deepslate"@ || id == "cobbled_deepslate"@ || id == "tuff"@ {
        opaque_surface(rgb(75, 75, 82))
    } else if id == "sand"@ || id == "sandstone"@ || id == "red_sand"@ {
        opaque_surface(rgb(215, 198, 138))
    } else if id == "snow"@ || id == "snow_block"@ || id == "powder_snow"@ || id == "white_wool"@ {
        opaque_surface(rgb(233, 239, 245))
    } else if id == "bedrock"@ || id == "obsidian"@ {
        opaque_surface(rgb(35, 32, 45))
    } else if id == "netherrack"@ || id == "nether_wart_block"@ {
        opaque_surface(rgb(118, 45, 43))
    } else if id == "end_stone"@ {
        opaque_surface(rgb(218, 220, 159))
    } else if contains_run(id, "leaves"@) || contains_run(id, "azalea"@) {
        opaque_surface(rgb(68, 127, 57))
    } else if contains_run(id, "log"@) || contains_run(id, "wood"@) || contains_run(id, "stem"@) {
        opaque_surface(rgb(103, 78, 48))
    } else if contains_run(id, "planks"@) || contains_run(id, "slab"@)
        || contains_run(id, "stairs"@) {
        opaque_surface(rgb(174, 137, 83))
    } else if contains_run(id, "ore"@) {
        opaque_surface(rgb(132, 139, 144))
    } else if contains_run(id, "terracotta"@) || contains_run(id, "brick"@) {
        opaque_surface(rgb(166, 89, 67))
    } else if contains_run(id, "wool"@) || contains_run(id, "concrete"@) {
        opaque_surface(rgb(193, 193, 193))
    } else {
        opaque_surface(rgb(151, 151, 151))
    }
}

/// Approximate colors, opacity, and tint for common Minecraft block families.
pub fn block_appearance(id: &str) -> (appearance: BlockAppearance)
    ensures
        appearance == appearance_of(id@),
{
    let chars = chars_of(id);
    if same_text(id, "water") || same_text(id, "bubble_column") {
        BlockAppearance::with_overlay(Rgb::new(48, 105, 192), 36, Rgb::new(25, 78, 150), 46)
    } else if same_text(id, "lava") {
        BlockAppearance::with_overlay(Rgb::new(246, 105, 27), 68, Rgb::new(220, 73, 18), 58)
    } else if contains_text(&chars, "glass") {
        BlockAppearance::translucent(Rgb::new(170, 212, 228), 30)
    } else if contains_text(&chars, "ice") {
        BlockAppearance::translucent(Rgb::new(144, 195, 220), 42)
    } else if same_text(id, "grass_block") || same_text(id, "short_grass")
        || same_text(id, "fern") || same_text(id, "moss_block") {
        BlockAppearance::opaque(Rgb::new(94, 159, 53))
    } else if same_text(id, "dirt") || same_text(id, "coarse_dirt")
        || same_text(id, "rooted_dirt") || same_text(id, "farmland") || same_text(id, "mud") {
        BlockAppearance::opaque(Rgb::new(126, 92, 57))
    } else if same_text(id, "stone") || same_text(id, "cobblestone")
        || same_text(id, "andesite") || same_text(id, "diorite") || same_text(id, "granite") {
        BlockAppearance::opaque(Rgb::new(125, 125, 125))
    } else if same_text(id, "deepslate") || same_text(id, "cobbled_deepslate")
        || same_text(id, "tuff") {
        BlockAppearance::opaque(Rgb::new(75, 75, 82))
    } else if same_text(id, "sand") || same_text(id, "sandstone") || same_text(id, "red_sand") {
        BlockAppearance::opaque(Rgb::new(215, 198, 138))
    } else if same_text(id, "snow") || same_text(id, "snow_block")
        || same_text(id, "powder_snow") || same_text(id, "white_wool") {
        BlockAppearance::opaque(Rgb::new(233, 239, 245))
    } else if same_text(id, "bedrock") || same_text(id, "obsidian") {
        BlockAppearance::opaque(Rgb::new(35, 32, 45))
    } else if same_text(id, "netherrack") || same_text(id, "nether_wart_block") {
        BlockAppearance::opaque(Rgb::new(118, 45, 43))
    } else if same_text(id, "end_stone") {
        BlockAppearance::opaque(Rgb::new(218, 220, 159))
    } else if contains_text(&chars, "leaves") || contains_text(&chars, "azalea") {
        BlockAppearance::opaque(Rgb::new(68, 127, 57))
    } else if contains_text(&chars, "log") || contains_text(&chars, "wood")
        || contains_text(&chars, "stem") {
        BlockAppearance::opaque(Rgb::new(103, 78, 48))
    } else if contains_text(&chars, "planks") || contains_text(&chars, "slab")
        || contains_text(&chars, "stairs") {
        BlockAppearance::opaque(Rgb::new(174, 137, 83))
    } else if contains_text(&chars, "ore") {
        BlockAppearance::opaque(Rgb::new(132, 139, 144))
    } else if contains_text(&chars, "terracotta") || contains_text(&chars, "brick") {
        BlockAppearance::opaque(Rgb::new(166, 89, 67))
    } else if contains_text(&chars, "wool") || contains_text(&chars, "concrete") {
        BlockAppearance::opaque(Rgb::new(193, 193, 193))
    } else {
        BlockAppearance::opaque(Rgb::new(151, 151, 151))
    }
}

/// Kept as a compact palette-only helper for diagnostics and callers that do
/// not need opacity information.
pub fn block_color(id: &str) -> (color: Rgb)
    ensures
        color == appearance_of(id@).color,
{
    block_appearance(id).color
}

/// The map symbol of a block.
pub open spec fn map_symbol(id: Seq<char>) -> char {
    if id == "grass_block"@ {
        'g'
    } else if id == "dirt"@ || id == "coarse_dirt"@ {
        'd'
    } else if id == "stone"@ || id == "cobblestone"@ || id == "deepslate"@ {
        '#'
    } else if id == "water"@ {
        '~'
    } else if id == "sand"@ || id == "red_sand"@ {
        '.'
    } else if contains_run(id, "leaves"@) || contains_run(id, "log"@) || contains_run(id, "wood"@) {
        'T'
    } else {
        '+'
    }
}

/// The map symbol of a block.
pub fn minimap_character(id: &str) -> (symbol: char)
    ensures
        symbol == map_symbol(id@),
{
    let chars = chars_of(id);
    if same_text(id, "grass_block") {
        'g'
    } else if same_text(id, "dirt") || same_text(id, "coarse_dirt") {
        'd'
    } else if same_text(id, "stone") || same_text(id, "cobblestone") || same_text(id, "deepslate") {
        '#'
    } else if same_text(id, "water") {
        '~'
    } else if same_text(id, "sand") || same_text(id, "red_sand") {
        '.'
    } else if contains_text(&chars, "leaves") || contains_text(&chars, "log") || contains_text(
        &chars,
        "wood",
    ) {
        'T'
    } else {
        '+'
    }
}

/// A ray continues exactly behind water, lava, glass and ice.
pub proof fn law_translucent_families(id: Seq<char>)
    ensures
        translucent(appearance_of(id)) <==> (id == "water"@ || id == "bubble_column"@ || id
            == "lava"@ || contains_run(id, "glass"@) || contains_run(id, "ice"@)),
        appearance_of(id).opacity <= 100,
{
}

/// Only fluids tint the whole view of a camera inside them, and every
/// material that does so is translucent.
pub proof fn law_overlay_families(id: Seq<char>)
    ensures
        appearance_of(id).camera_overlay is Some <==> (id == "water"@ || id == "bubble_column"@
            || id == "lava"@),
        appearance_of(id).camera_overlay is Some ==> translucent(appearance_of(id)),
{
}

/// A map symbol never is the sign for air, for an unloaded cell, for a row's
/// end, or for the player.
pub proof fn law_map_symbols_are_terrain(id: Seq<char>)
    ensures
        map_symbol(id) != ' ',
        map_symbol(id) != '?',
        map_symbol(id) != '\n',
        map_symbol(id) != '@',
{
}

/// Whether the palette knows a block by its whole identifier.
pub open spec fn known_by_name(id: Seq<char>) -> bool {
    ||| id == "water"@
    ||| id == "bubble_column"@
    ||| id == "lava"@
    ||| id == "grass_block"@
    ||| id == "short_grass"@
    ||| id == "fern"@
    ||| id == "moss_block"@
    ||| id == "dirt"@
    ||| id == "coarse_dirt"@
    ||| id == "rooted_dirt"@
    ||| id == "farmland"@
    ||| id == "mud"@
    ||| id == "stone"@
    ||| id == "cobblestone"@
    ||| id == "andesite"@
    ||| id == "diorite"@
    ||| id == "granite"@
    ||| id == "deepslate"@
    ||| id == "cobbled_deepslate"@
    ||| id == "tuff"@
    ||| id == "sand"@
    ||| id == "sandstone"@
    ||| id == "red_sand"@
    ||| id == "snow"@
    ||| id == "snow_block"@
    ||| id == "powder_snow"@
    ||| id == "white_wool"@
    ||| id == "bedrock"@
    ||| id == "obsidian"@
    ||| id == "netherrack"@
    ||| id == "nether_wart_block"@
    ||| id == "end_stone"@
}

/// Fluids look like themselves: water is blue and clearer than lava, which is
/// red and hides most of what is behind it. A camera inside is tinted in the
/// same hue. Glass and ice are pale, and glass is the clearest of all.
pub proof fn law_translucent_colours(id: Seq<char>)
    ensures
        id == "water"@ || id == "bubble_column"@ ==> {
            let look = appearance_of(id);
            &&& look.color.b > look.color.g > look.color.r
            &&& look.opacity == 36
            &&& look.camera_overlay matches Some((tint, percent)) && tint.b > tint.g > tint.r
                && percent == 46
        },
        id == "lava"@ ==> {
            let look = appearance_of(id);
            &&& look.color.r > look.color.g > look.color.b
            &&& look.opacity == 68
            &&& look.camera_overlay matches Some((tint, percent)) && tint.r > tint.g > tint.b
                && percent == 58
        },
        !known_by_name(id) && contains_run(id, "glass"@) ==> {
            let look = appearance_of(id);
            &&& look.opacity == 30
            &&& look.color.b > look.color.g > look.color.r > 150
        },
        !known_by_name(id) && !contains_run(id, "glass"@) && contains_run(id, "ice"@) ==> {
            let look = appearance_of(id);
            &&& look.opacity == 42
            &&& 200 < look.color.b && look.color.b > look.color.g > look.color.r
        },
{
    reveal_strlit("water");
    reveal_strlit("bubble_column");
    reveal_strlit("lava");
    assert("water"@.len() == 5);
    assert("bubble_column"@.len() == 13);
    assert("lava"@.len() == 4);
}

/// Opaque terrain that is known by name shows its material: grass is green,
/// dirt brown, stone a neutral grey and deepslate a darker one, sand light and
/// yellowish, snow nearly white, bedrock nearly black, netherrack red, and end
/// stone a pale yellow.
pub proof fn law_terrain_colours(id: Seq<char>)
    requires
        !translucent(appearance_of(id)),
    ensures
        ({
            let color = appearance_of(id).color;
            &&& id == "grass_block"@ || id == "short_grass"@ || id == "fern"@ || id
                == "moss_block"@ ==> color.g > color.r + 50 && color.r > color.b
            &&& id == "dirt"@ || id == "coarse_dirt"@ || id == "rooted_dirt"@ || id == "farmland"@
                || id == "mud"@ ==> color.r > color.g > color.b && color.r < 150
            &&& id == "stone"@ || id == "cobblestone"@ || id == "andesite"@ || id == "diorite"@
                || id == "granite"@ ==> color.r == color.g == color.b && 100 < color.r < 150
            &&& id == "deepslate"@ || id == "cobbled_deepslate"@ || id == "tuff"@ ==> color.r
                == color.g && color.g < color.b < 100 && color.r > 50
            &&& id == "sand"@ || id == "sandstone"@ || id == "red_sand"@ ==> color.r > color.g
                > color.b && color.g > 190
            &&& id == "snow"@ || id == "snow_block"@ || id == "powder_snow"@ || id
                == "white_wool"@ ==> color.b > color.g > color.r > 220
            &&& id == "bedrock"@ || id == "obsidian"@ ==> color.r < 50 && color.g < 50 && color.b
                < 50
            &&& id == "netherrack"@ || id == "nether_wart_block"@ ==> color.r > 2 * color.g
                && color.r > 2 * color.b
            &&& id == "end_stone"@ ==> color.g > color.r > color.b && color.r > 200
        }),
{
    reveal_strlit("grass_block");
    assert("grass_block"@.len() == 11);
    reveal_strlit("short_grass");
    assert("short_grass"@.len() == 11);
    reveal_strlit("fern");
    assert("fern"@.len() == 4);
    reveal_strlit("moss_block");
    assert("moss_block"@.len() == 10);
    reveal_strlit("dirt");
    assert("dirt"@.len() == 4);
    reveal_strlit("coarse_dirt");
    assert("coarse_dirt"@.len() == 11);
    reveal_strlit("rooted_dirt");
    assert("rooted_dirt"@.len() == 11);
    reveal_strlit("farmland");
    assert("farmland"@.len() == 8);
    reveal_strlit("mud");
    assert("mud"@.len() == 3);
    reveal_strlit("stone");
    assert("stone"@.len() == 5);
    reveal_strlit("cobblestone");
    assert("cobblestone"@.len() == 11);
    reveal_strlit("andesite");
    assert("andesite"@.len() == 8);
    reveal_strlit("diorite");
    assert("diorite"@.len() == 7);
    reveal_strlit("granite");
    assert("granite"@.len() == 7);
    reveal_strlit("deepslate");
    assert("deepslate"@.len() == 9);
    reveal_strlit("cobbled_deepslate");
    assert("cobbled_deepslate"@.len() == 17);
    reveal_strlit("tuff");
    assert("tuff"@.len() == 4);
    reveal_strlit("sand");
    assert("sand"@.len() == 4);
    reveal_strlit("sandstone");
    assert("sandstone"@.len() == 9);
    reveal_strlit("red_sand");
    assert("red_sand"@.len() == 8);
    reveal_strlit("snow");
    assert("snow"@.len() == 4);
    reveal_strlit("snow_block");
    assert("snow_block"@.len() == 10);
    reveal_strlit("powder_snow");
    assert("powder_snow"@.len() == 11);
    reveal_strlit("white_wool");
    assert("white_wool"@.len() == 10);
    reveal_strlit("bedrock");
    assert("bedrock"@.len() == 7);
    reveal_strlit("obsidian");
    assert("obsidian"@.len() == 8);
    reveal_strlit("netherrack");
    assert("netherrack"@.len() == 10);
    reveal_strlit("nether_wart_block");
    assert("nether_wart_block"@.len() == 17);
    reveal_strlit("end_stone");
    assert("end_stone"@.len() == 9);
    assert("grass_block"@[0] != "coarse_dirt"@[0]);
    assert("grass_block"@[0] != "rooted_dirt"@[0]);
    assert("short_grass"@[0] != "coarse_dirt"@[0]);
    assert("short_grass"@[0] != "rooted_dirt"@[0]);
    assert("fern"@[0] != "dirt"@[0]);
    assert("grass_block"@[0] != "cobblestone"@[0]);
    assert("short_grass"@[0] != "cobblestone"@[0]);
    assert("fern"@[0] != "tuff"@[0]);
    assert("fern"@[0] != "sand"@[0]);
    assert("grass_block"@[0] != "powder_snow"@[0]);
    assert("short_grass"@[0] != "powder_snow"@[0]);
    assert("fern"@[0] != "snow"@[0]);
    assert("moss_block"@[0] != "snow_block"@[0]);
    assert("moss_block"@[0] != "white_wool"@[0]);
    assert("moss_block"@[0] != "netherrack"@[0]);
    assert("coarse_dirt"@[2] != "cobblestone"@[2]);
    assert("rooted_dirt"@[0] != "cobblestone"@[0]);
    assert("farmland"@[0] != "andesite"@[0]);
    assert("dirt"@[0] != "tuff"@[0]);
    assert("dirt"@[0] != "sand"@[0]);
    assert("farmland"@[0] != "red_sand"@[0]);
    assert("dirt"@[0] != "snow"@[0]);
    assert("coarse_dirt"@[0] != "powder_snow"@[0]);
    assert("rooted_dirt"@[0] != "powder_snow"@[0]);
    assert("farmland"@[0] != "obsidian"@[0]);
    assert("andesite"@[0] != "red_sand"@[0]);
    assert("cobblestone"@[0] != "powder_snow"@[0]);
    assert("andesite"@[0] != "obsidian"@[0]);
    assert("diorite"@[0] != "bedrock"@[0]);
    assert("granite"@[0] != "bedrock"@[0]);
    assert("deepslate"@[0] != "sandstone"@[0]);
    assert("tuff"@[0] != "sand"@[0]);
    assert("tuff"@[0] != "snow"@[0]);
    assert("cobbled_deepslate"@[0] != "nether_wart_block"@[0]);
    assert("deepslate"@[0] != "end_stone"@[0]);
    assert("sand"@[1] != "snow"@[1]);
    assert("red_sand"@[0] != "obsidian"@[0]);
    assert("sandstone"@[0] != "end_stone"@[0]);
    assert("snow_block"@[0] != "netherrack"@[0]);
    assert("white_wool"@[0] != "netherrack"@[0]);
}

/// Opaque families are known by a part of their identifier, the first of these
/// that it holds: foliage is green, wood a dark and planks a light brown, ore
/// and wool a light grey, terracotta and bricks red. Any other block is grey.
pub proof fn law_family_colours(id: Seq<char>)
    requires
        !translucent(appearance_of(id)),
        !known_by_name(id),
    ensures
        ({
            let color = appearance_of(id).color;
            let foliage = contains_run(id, "leaves"@) || contains_run(id, "azalea"@);
            let wood = contains_run(id, "log"@) || contains_run(id, "wood"@) || contains_run(
                id,
                "stem"@,
            );
            let planks = contains_run(id, "planks"@) || contains_run(id, "slab"@) || contains_run(
                id,
                "stairs"@,
            );
            let ore = contains_run(id, "ore"@);
            let clay = contains_run(id, "terracotta"@) || contains_run(id, "brick"@);
            let plain = contains_run(id, "wool"@) || contains_run(id, "concrete"@);
            &&& (color.g > color.r + 50 && color.g > color.b + 50) <==> foliage
            &&& (color.r > color.g > color.b && color.r < 120) <==> !foliage && wood
            &&& (color.r > color.g > color.b && color.g > 120) <==> !foliage && !wood && planks
            &&& (color.b > color.g > color.r) <==> !foliage && !wood && !planks && ore
            &&& (color.r > color.g > color.b && 120 < color.r && color.g < 120) <==> !foliage
                && !wood && !planks && !ore && clay
            &&& (color.r == color.g == color.b && color.r > 180) <==> !foliage && !wood && !planks
                && !ore && !clay && plain
            &&& (color.r == color.g == color.b && color.r < 180) <==> !foliage && !wood && !planks
                && !ore && !clay && !plain
        }),
{
}

/// A map symbol tells what stands on its cell: `g` is grass, `d` dirt, `#`
/// stone, `~` water, `.` sand, and `T` part of a tree; each of these blocks has
/// its symbol, and all others have `+`.
pub proof fn law_map_symbols_name_terrain(id: Seq<char>)
    ensures
        map_symbol(id) == 'g' <==> id == "grass_block"@,
        map_symbol(id) == 'd' <==> id == "dirt"@ || id == "coarse_dirt"@,
        map_symbol(id) == '#' <==> id == "stone"@ || id == "cobblestone"@ || id == "deepslate"@,
        map_symbol(id) == '~' <==> id == "water"@,
        map_symbol(id) == '.' <==> id == "sand"@ || id == "red_sand"@,
        map_symbol(id) == 'T' ==> contains_run(id, "leaves"@) || contains_run(id, "log"@)
            || contains_run(id, "wood"@),
        !known_by_name(id) && (contains_run(id, "leaves"@) || contains_run(id, "log"@)
            || contains_run(id, "wood"@)) ==> map_symbol(id) == 'T',
        !known_by_name(id) && !(contains_run(id, "leaves"@) || contains_run(id, "log"@)
            || contains_run(id, "wood"@)) ==> map_symbol(id) == '+',
{
    reveal_strlit("grass_block");
    assert("grass_block"@.len() == 11);
    reveal_strlit("dirt");
    assert("dirt"@.len() == 4);
    reveal_strlit("coarse_dirt");
    assert("coarse_dirt"@.len() == 11);
    reveal_strlit("stone");
    assert("stone"@.len() == 5);
    reveal_strlit("cobblestone");
    assert("cobblestone"@.len() == 11);
    reveal_strlit("deepslate");
    assert("deepslate"@.len() == 9);
    reveal_strlit("water");
    assert("water"@.len() == 5);
    reveal_strlit("sand");
    assert("sand"@.len() == 4);
    reveal_strlit("red_sand");
    assert("red_sand"@.len() == 8);
    assert("grass_block"@[0] != "coarse_dirt"@[0]);
    assert("grass_block"@[0] != "cobblestone"@[0]);
    assert("coarse_dirt"@[2] != "cobblestone"@[2]);
    assert("dirt"@[0] != "sand"@[0]);
    assert("stone"@[0] != "water"@[0]);
}

} // verus!
