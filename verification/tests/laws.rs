//! Laws of the library on concrete values.
use std::collections::HashMap;

use mctui::config::{server_host, Flag, LiveConfig, Request};
use mctui::entities::drawing_order;
use mctui::hud::HotbarSlot;
use mctui::input::{
    apply_key, InputAction, InventoryUi, KeyCode, KeyEvent, KeyEventKind, WalkDirection,
};
use mctui::map::navigation_heading;
use mctui::overrides::{block_override_from_id, live_voxel};
use mctui::palette::{block_appearance, minimap_character};
use mctui::ray::{raycast, trace_scene, RayTerminal};
use mctui::screen::layout_for;
use mctui::shade::shade_hit;
use mctui::{
    AxisCrossings, Block, BlockPos, BlockSource, ClientState, Distance, EntityCategory,
    EntityMarker, GamePacket, HudSnapshot, LightLevels, Ray, RayHit, RayResult, Voxel, WorldTime,
};

#[derive(Default)]
struct World {
    blocks: HashMap<BlockPos, Voxel>,
    lights: HashMap<BlockPos, LightLevels>,
}

impl BlockSource for World {
    fn voxel(&self, position: BlockPos) -> Voxel {
        self.voxel_at(position)
    }

    fn light(&self, position: BlockPos) -> LightLevels {
        self.light_at(position)
    }

    fn voxel_at(&self, position: BlockPos) -> Voxel {
        self.blocks.get(&position).copied().unwrap_or(Voxel::Air)
    }

    fn light_at(&self, position: BlockPos) -> LightLevels {
        self.lights.get(&position).copied().unwrap_or(LightLevels::new(0, 0))
    }
}

fn solid(id: &'static str) -> Voxel {
    Voxel::Solid(Block { id })
}

fn key(key: i64) -> Distance {
    Distance { key }
}

fn crossings(step: i32, keys: &[i64]) -> AxisCrossings {
    AxisCrossings { step, sides: keys.iter().map(|&k| key(k)).collect() }
}

/// A slanted ray that visits (0,0,0) (1,0,0) (1,0,-1) (2,0,-1) (2,1,-1).
fn slanted() -> Ray {
    Ray {
        start: BlockPos::new(0, 0, 0),
        x: crossings(1, &[10, 30]),
        y: crossings(1, &[40]),
        z: crossings(-1, &[20]),
    }
}

const VISITED: [(i32, i32, i32); 5] = [(0, 0, 0), (1, 0, 0), (1, 0, -1), (2, 0, -1), (2, 1, -1)];

#[test]
fn a_ray_visits_connected_cells_in_order_of_distance() {
    let mut last = key(0);
    for (n, (x, y, z)) in VISITED.into_iter().enumerate() {
        let position = BlockPos::new(x, y, z);
        let mut world = World::default();
        world.blocks.insert(position, solid("stone"));
        let RayResult::Hit(hit) = raycast(&world, Some(&slanted())) else {
            panic!("cell {n} was not visited");
        };
        assert_eq!(hit.position, position);
        assert_eq!(hit.distance, key(10 * n as i64));
        assert!(last.key <= hit.distance.key);
        last = hit.distance;
        match hit.entered_face {
            None => assert_eq!(n, 0),
            Some(face) => {
                let (x, y, z) = VISITED[n - 1];
                assert_eq!(face.light_sample_position(position), BlockPos::new(x, y, z));
            }
        }
    }
    let mut beyond = World::default();
    beyond.blocks.insert(BlockPos::new(3, 1, -1), solid("stone"));
    assert_eq!(raycast(&beyond, Some(&slanted())), RayResult::Miss);
}

#[test]
fn light_comes_from_the_cell_before_the_hit() {
    let mut world = World::default();
    world.lights.insert(BlockPos::new(1, 0, -1), LightLevels::new(5, 6));
    world.blocks.insert(BlockPos::new(2, 0, -1), solid("stone"));
    let RayResult::Hit(hit) = raycast(&world, Some(&slanted())) else {
        panic!("the block was missed");
    };
    assert_eq!(shade_hit(&world, hit).light, LightLevels::new(5, 6));
}

#[test]
fn a_scene_begins_with_the_hit_of_the_plain_ray() {
    let mut world = World::default();
    world.blocks.insert(BlockPos::new(1, 0, 0), solid("glass"));
    world.blocks.insert(BlockPos::new(2, 0, -1), Voxel::Unloaded);
    let scene = trace_scene(&world, Some(&slanted()));
    assert_eq!(raycast(&world, Some(&slanted())), RayResult::Hit(scene.layers[0]));
    // Unloaded space behind glass is not taken for sky.
    assert_eq!(scene.terminal, RayTerminal::Unloaded { distance: key(30) });
    world.blocks.remove(&BlockPos::new(2, 0, -1));
    assert_eq!(trace_scene(&world, Some(&slanted())).terminal, RayTerminal::Miss);
    world.blocks.insert(BlockPos::new(0, 0, 0), solid("dirt"));
    let scene = trace_scene(&world, Some(&slanted()));
    assert_eq!(scene.layers, []);
    assert_eq!(
        scene.terminal,
        RayTerminal::Opaque(RayHit {
            position: BlockPos::new(0, 0, 0),
            distance: key(0),
            block: Block { id: "dirt" },
            entered_face: None,
        })
    );
}

#[test]
fn families_keep_what_the_palette_promises() {
    for id in ["water", "bubble_column", "lava", "tinted_glass", "blue_ice"] {
        assert!(block_appearance(id).is_translucent());
    }
    for id in ["stone", "oak_leaves", "azalea", "oak_log", ""] {
        assert!(!block_appearance(id).is_translucent());
        assert_eq!(block_appearance(id).camera_overlay, None);
        assert!(!" ?@\n".contains(minimap_character(id)));
    }
    assert_eq!(block_appearance("tinted_glass").camera_overlay, None);
}

#[test]
fn headings_turn_with_the_player() {
    for degrees in -720..720 {
        let right = match navigation_heading(degrees) {
            'v' => '<',
            '<' => '^',
            '^' => '>',
            _ => 'v',
        };
        assert_eq!(navigation_heading(degrees + 90), right);
        assert_eq!(navigation_heading(degrees + 360), navigation_heading(degrees));
    }
}

#[test]
fn a_clock_that_advances_in_steps_ends_at_the_same_tick() {
    let start = WorldTime { total_ticks: 23_990, partial_tick: (), rate: () };
    let stepped = start.advance(7, ()).advance(24_000, ());
    assert_eq!(stepped.total_ticks, start.advance(24_007, ()).total_ticks);
    assert_eq!(stepped.day_tick(), start.advance(7, ()).day_tick());
    assert_eq!(start.advance(u64::MAX, ()).advance(3, ()).total_ticks, u64::MAX);
}

#[test]
fn a_confirmed_override_changes_nothing_that_is_seen() {
    for (id, confirming) in [("air", "cave_air"), ("stone", "stone")] {
        let overriding = block_override_from_id(id);
        assert_eq!(
            live_voxel(Some(overriding), Some(confirming)),
            live_voxel(None, Some(confirming))
        );
    }
}

#[test]
fn namespaces_are_dropped() {
    let plain = HotbarSlot::from_stack(Some("stone"), 2);
    assert_eq!(HotbarSlot::from_stack(Some("minecraft:stone"), 2), plain);
    assert_eq!(plain.item_id.as_deref(), Some("stone"));
}

#[test]
fn the_hotbar_line_keeps_its_width() {
    let mut hud = HudSnapshot::default();
    for slot in 0..9 {
        hud.set_hotbar_slot(slot, Some("minecraft:diamond_pickaxe"), i32::MAX);
        hud.set_selected_hotbar_slot(slot);
        assert_eq!(hud.hotbar_line().chars().count(), 79);
        assert_eq!(hud.inventory_cell(36 + slot, true), ">DP99<");
    }
}

#[test]
fn the_cursor_reaches_every_slot_and_comes_back() {
    let mut ui = InventoryUi::default();
    let mut seen = Vec::new();
    for _ in 0..4 {
        for _ in 0..9 {
            seen.push(ui.selected_slot());
            ui.move_by(0, 1);
        }
        ui.move_by(1, 0);
    }
    assert_eq!(seen, (9..45).collect::<Vec<_>>());
    assert_eq!(ui, InventoryUi::default());
    ui.move_by(3, 5);
    ui.move_by(-3, -5);
    assert_eq!(ui, InventoryUi::default());
    for start in [0, 4, 8, 45] {
        for direction in [-7, -1, 1, 12] {
            let mut ui = InventoryUi { special_slot: Some(start), ..InventoryUi::default() };
            ui.cycle_special_slot(direction);
            ui.cycle_special_slot(-direction);
            assert_eq!(ui.selected_slot(), start);
        }
    }
}

#[test]
fn only_q_and_escape_quit_and_releases_only_stop() {
    for open in [false, true] {
        for code in [KeyCode::Char('q'), KeyCode::Esc, KeyCode::Char('w'), KeyCode::Enter] {
            for kind in [KeyEventKind::Press, KeyEventKind::Repeat, KeyEventKind::Release] {
                let before = InventoryUi { open, ..InventoryUi::default() };
                let mut ui = before;
                let action = apply_key(&mut ui, None, KeyEvent { code, kind, shift: false });
                let quits = kind != KeyEventKind::Release
                    && (code == KeyCode::Char('q') || (code == KeyCode::Esc && !open));
                assert_eq!(action == InputAction::Quit, quits);
                if kind == KeyEventKind::Release {
                    assert_eq!(ui, before);
                    assert!(
                        action == InputAction::Nothing
                            || action == InputAction::Walk(WalkDirection::Stop)
                    );
                }
            }
        }
    }
}

#[test]
fn player_packets_leave_the_world_alone() {
    let mut state: ClientState<(), ()> = ClientState::new();
    let position = BlockPos::new(0, 0, 0);
    state.overrides.set_block_override(position, "stone");
    let hud = state.hud.clone();
    state.capture_protocol_data(GamePacket::ForgetLevelChunk { x: 5, z: 5 }, ());
    assert_eq!(state.hud, hud);
    assert!(state.overrides.get(position).is_some());
    state.capture_protocol_data(GamePacket::SetExperience { filled: 1, level: 1 }, ());
    assert_ne!(state.hud, hud);
    assert!(state.overrides.get(position).is_some());
}

#[test]
fn ports_and_brackets_do_not_change_a_host() {
    assert_eq!(server_host("example.org:25565"), "example.org");
    assert_eq!(server_host("example.org:"), "example.org");
    assert_eq!(server_host("[fe80::1]:7"), "fe80::1");
    assert_eq!(server_host("[fe80::1]"), "fe80::1");
}

#[test]
fn the_order_of_switches_does_not_matter() {
    let parse = |args: [&str; 3]| {
        let args: Vec<String> = args.iter().map(|argument| argument.to_string()).collect();
        let none = vec![None; 3];
        LiveConfig::parse_arguments(&args, &none, &none, (), ())
    };
    let config = parse(["--online", "--entities", "--textures"]);
    assert!(matches!(config, Ok(Request::Run(_))));
    assert_eq!(config, parse(["--textures", "--online", "--entities"]));
    for flag in [Flag::Server, Flag::Fps, Flag::Fov, Flag::Help, Flag::AllowPublicServer] {
        assert_eq!(Flag::from_argument(flag.name()), Some(flag));
    }
    assert_eq!(Flag::from_argument("-h"), Some(Flag::Help));
}

#[test]
fn layouts_always_leave_the_last_column() {
    for columns in 2..200_u16 {
        for rows in 6..60_u16 {
            let layout = layout_for(Some((columns, rows)), 120, 36);
            let sidebar = if layout.show_minimap { 19 } else { 0 };
            assert!(layout.frame_width + sidebar < columns as usize);
            assert!(layout.frame_height + 5 <= rows as usize);
        }
    }
}

#[test]
fn equally_far_markers_keep_their_order() {
    let marker = |distance: i64| EntityMarker {
        category: EntityCategory::Passive,
        distance: key(distance),
        sight: None,
        occlusion: key(0),
        on_screen: false,
        center_x: 0,
        center_y: 0,
        height: 0,
        width: 0,
    };
    let markers: Vec<EntityMarker> = [3, 7, 3, 7, 5].into_iter().map(marker).collect();
    assert_eq!(drawing_order(&markers), [1, 3, 4, 0, 2]);
}
