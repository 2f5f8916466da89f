//! Top-down maps.
use std::collections::HashMap;

use mctui::map::{minimap, navigation_character, navigation_heading, navigation_minimap};
use mctui::{Block, BlockPos, BlockSource, LightLevels, Voxel};

#[derive(Default)]
struct TestWorld(HashMap<BlockPos, Voxel>);

impl BlockSource for TestWorld {
    fn voxel(&self, position: BlockPos) -> Voxel {
        self.voxel_at(position)
    }

    fn light(&self, position: BlockPos) -> LightLevels {
        self.light_at(position)
    }

    fn voxel_at(&self, position: BlockPos) -> Voxel {
        self.0.get(&position).copied().unwrap_or(Voxel::Air)
    }

    fn light_at(&self, _position: BlockPos) -> LightLevels {
        LightLevels::full_sky()
    }
}

#[test]
fn navigation_minimap_projects_terrain_and_marks_heading() {
    let mut world = TestWorld::default();
    world.0.insert(BlockPos::new(-1, 0, -1), Voxel::Solid(Block { id: "stone" }));
    world.0.insert(BlockPos::new(1, 1, 0), Voxel::Solid(Block { id: "water" }));

    let map = navigation_minimap(&world, BlockPos::new(0, 3, 0), 0, 1);
    let rows: Vec<_> = map.lines().collect();

    assert_eq!(rows, ["#  ", " v~", "   "]);
    assert_eq!(navigation_heading(-90), '>');
    assert_eq!(navigation_heading(90), '<');
    assert_eq!(navigation_heading(180), '^');
}

#[test]
fn headings_change_at_the_diagonals() {
    assert_eq!(navigation_heading(44), 'v');
    assert_eq!(navigation_heading(45), '<');
    assert_eq!(navigation_heading(134), '<');
    assert_eq!(navigation_heading(135), '^');
    assert_eq!(navigation_heading(224), '^');
    assert_eq!(navigation_heading(225), '>');
    assert_eq!(navigation_heading(314), '>');
    assert_eq!(navigation_heading(315), 'v');
    assert_eq!(navigation_heading(90 + 360 * 5), '<');
    assert_eq!(navigation_heading(i32::MIN), navigation_heading(i32::MIN + 360));
}

#[test]
fn layer_map_shows_only_the_given_layer() {
    let mut world = TestWorld::default();
    world.0.insert(BlockPos::new(1, 5, 0), Voxel::Solid(Block { id: "sand" }));
    world.0.insert(BlockPos::new(0, 4, 1), Voxel::Solid(Block { id: "sand" }));
    world.0.insert(BlockPos::new(-1, 5, -1), Voxel::Unloaded);

    assert_eq!(minimap(&world, BlockPos::new(0, 5, 0), 1), "?  \n @.\n   \n");
    // A map is at least one block wide on every side.
    assert_eq!(minimap(&world, BlockPos::new(0, 5, 0), -3), "?  \n @.\n   \n");
}

#[test]
fn columns_show_terrain_before_unloaded_space() {
    let mut world = TestWorld::default();
    world.0.insert(BlockPos::new(0, 9, 0), Voxel::Unloaded);
    assert_eq!(navigation_character(&world, BlockPos::new(0, 10, 0), 8), '?');
    world.0.insert(BlockPos::new(0, 2, 0), Voxel::Solid(Block { id: "grass_block" }));
    assert_eq!(navigation_character(&world, BlockPos::new(0, 10, 0), 8), 'g');
    assert_eq!(navigation_character(&world, BlockPos::new(0, 10, 0), 7), '?');
    assert_eq!(navigation_character(&world, BlockPos::new(0, 8, 0), 5), ' ');
    assert_eq!(navigation_character(&world, BlockPos::new(0, 8, 0), -1), ' ');
}
