//! The keyboard, the screen, and the texts on it.
use mctui::input::{
    apply_key, look_angles_after_key, movement_for_key, InputAction, InventoryButton, InventoryUi,
    KeyCode, KeyEvent, KeyEventKind, PlayerAction, WalkDirection,
};
use mctui::report::{
    count_frame, forward_hit, frame_pause, minimap_heading, monitor_line, target_readout,
    view_status_line, ViewNumbers,
};
use mctui::screen::{
    append_half_block, append_inventory_overlay, append_minimap_sidebar, append_text_line,
    controls_line, draw, layout_for, DrawView, RenderLayout,
};
use mctui::text::{parse_unsigned, split_lines};
use mctui::{
    navigation_minimap, AxisCrossings, Block, BlockPos, BlockSource, Distance, Frame, HudSnapshot,
    LightLevels, Ray, Rgb, Voxel,
};

#[test]
fn half_block_uses_independent_foreground_and_background() {
    let mut encoded = String::new();
    append_half_block(&mut encoded, Rgb::new(1, 2, 3), Rgb::new(4, 5, 6));
    assert_eq!(encoded, "\x1b[38;2;1;2;3m\x1b[48;2;4;5;6m▀");
}

#[test]
fn inventory_cursor_wraps_across_the_four_player_storage_rows() {
    let mut inventory = InventoryUi::default();
    inventory.move_by(-1, -1);

    assert_eq!(inventory.selected_slot(), 44);
    inventory.move_by(1, 1);
    assert_eq!(inventory.selected_slot(), 9);
}

#[test]
fn inventory_cursor_cycles_special_equipment_and_crafting_slots() {
    let mut inventory = InventoryUi::default();
    inventory.cycle_special_slot(-1);
    assert_eq!(inventory.selected_slot(), 45);
    inventory.cycle_special_slot(1);
    assert_eq!(inventory.selected_slot(), 0);
    inventory.move_by(0, 0);
    assert_eq!(inventory.selected_slot(), 9);
}

#[test]
fn a_cursor_off_the_special_slots_still_moves() {
    let mut inventory =
        InventoryUi { open: true, row: 7, column: 10, special_slot: Some(1_000) };
    assert_eq!(inventory.selected_slot(), 1_000);
    inventory.move_by(-1, 1);
    assert_eq!((inventory.row, inventory.column), (2, 2));
    assert_eq!(inventory.selected_slot(), 29);
}

#[test]
fn any_direction_enters_the_special_slots() {
    let mut inventory = InventoryUi::default();
    inventory.cycle_special_slot(isize::MAX);
    assert_eq!(inventory.selected_slot(), 0);
    inventory.cycle_special_slot(isize::MAX);
    assert_eq!(inventory.selected_slot(), (isize::MAX % 10) as usize);
    let mut inventory = InventoryUi::default();
    inventory.cycle_special_slot(isize::MIN);
    assert_eq!(inventory.selected_slot(), 45);
}

#[test]
fn inventory_overlay_marks_the_selected_server_slot() {
    let mut hud = HudSnapshot::default();
    hud.set_player_menu_slot(9, Some("minecraft:stone"), 64);
    let inventory = InventoryUi::default();
    let mut output = String::new();

    append_inventory_overlay(&mut output, &hud, &inventory, 9, 79);

    assert!(output.contains(">ST64<"));
    assert!(output.contains("server-synced player inventory"));
}

#[test]
fn text_lines_are_clipped_before_the_terminal_wrap_column() {
    let mut output = String::new();
    append_text_line(&mut output, "12345", 4, false);

    assert_eq!(output, "\x1b[0m\x1b[2K1234");
}

/// The view angles after a key.
fn look(yaw: f32, pitch: f32, key: KeyCode) -> Option<(f32, f32)> {
    look_angles_after_key(key)
        .map(|(turn, tilt)| (yaw + turn as f32, pitch + tilt as f32))
}

#[test]
fn look_arrows_follow_minecraft_yaw_direction() {
    assert_eq!(look(0.0, 0.0, KeyCode::Left), Some((-6.0, 0.0)));
    assert_eq!(look(0.0, 0.0, KeyCode::Right), Some((6.0, 0.0)));
    assert_eq!(look(0.0, 0.0, KeyCode::Up), Some((0.0, -6.0)));
    assert_eq!(look(0.0, 0.0, KeyCode::Down), Some((0.0, 6.0)));
    assert_eq!(look(0.0, 0.0, KeyCode::Tab), None);
}

#[test]
fn wasd_lateral_keys_follow_the_player_perspective() {
    assert_eq!(movement_for_key(KeyCode::Char('a')), Some(WalkDirection::Left));
    assert_eq!(movement_for_key(KeyCode::Char('d')), Some(WalkDirection::Right));
}

fn press(code: KeyCode) -> KeyEvent {
    KeyEvent { code, kind: KeyEventKind::Press, shift: false }
}

fn shifted(code: KeyCode) -> KeyEvent {
    KeyEvent { code, kind: KeyEventKind::Press, shift: true }
}

#[test]
fn keys_move_look_and_act_in_the_world() {
    let mut ui = InventoryUi::default();
    let target = Some(BlockPos::new(1, 2, 3));
    let mut act = |key| apply_key(&mut ui, target, key);
    assert_eq!(act(press(KeyCode::Char('w'))), InputAction::Walk(WalkDirection::Forward));
    assert_eq!(act(shifted(KeyCode::Char('w'))), InputAction::SprintForward);
    assert_eq!(act(shifted(KeyCode::Char('W'))), InputAction::SprintForward);
    assert_eq!(act(press(KeyCode::Char('W'))), InputAction::Nothing);
    assert_eq!(act(shifted(KeyCode::Char('A'))), InputAction::Nothing);
    assert_eq!(
        act(KeyEvent { kind: KeyEventKind::Release, ..shifted(KeyCode::Char('W')) }),
        InputAction::Walk(WalkDirection::Stop)
    );
    assert_eq!(act(shifted(KeyCode::Char('s'))), InputAction::Walk(WalkDirection::Backward));
    assert_eq!(act(press(KeyCode::Char(' '))), InputAction::Jump);
    assert_eq!(act(press(KeyCode::Char('x'))), InputAction::Walk(WalkDirection::Stop));
    assert_eq!(act(press(KeyCode::Char('c'))), InputAction::ToggleCrouch);
    assert_eq!(act(press(KeyCode::Up)), InputAction::Look { yaw: 0, pitch: -6 });
    assert_eq!(
        act(press(KeyCode::Char('f'))),
        InputAction::Queue(PlayerAction::StartMining(BlockPos::new(1, 2, 3)))
    );
    assert_eq!(
        act(press(KeyCode::Char('g'))),
        InputAction::Queue(PlayerAction::UseTargetedBlock(BlockPos::new(1, 2, 3)))
    );
    assert_eq!(
        act(press(KeyCode::Char('9'))),
        InputAction::Queue(PlayerAction::SelectHotbarSlot(8))
    );
    assert_eq!(act(press(KeyCode::Char('0'))), InputAction::Nothing);
    assert_eq!(act(press(KeyCode::Enter)), InputAction::Nothing);
    assert_eq!(act(press(KeyCode::Char('q'))), InputAction::Quit);
    assert_eq!(act(press(KeyCode::Esc)), InputAction::Quit);
    assert_eq!(apply_key(&mut ui, None, press(KeyCode::Char('f'))), InputAction::Nothing);
    assert_eq!(apply_key(&mut ui, None, press(KeyCode::Char('g'))), InputAction::Nothing);
}

#[test]
fn keys_drive_the_open_inventory() {
    let mut ui = InventoryUi::default();
    assert_eq!(apply_key(&mut ui, None, press(KeyCode::Char('e'))), InputAction::Nothing);
    assert!(ui.open);
    apply_key(&mut ui, None, press(KeyCode::Down));
    apply_key(&mut ui, None, press(KeyCode::Left));
    assert_eq!(ui.selected_slot(), 26);
    assert_eq!(
        apply_key(&mut ui, None, press(KeyCode::Enter)),
        InputAction::Queue(PlayerAction::InventoryClick {
            slot: 26,
            button: InventoryButton::Left
        })
    );
    assert_eq!(
        apply_key(&mut ui, None, shifted(KeyCode::Enter)),
        InputAction::Queue(PlayerAction::InventoryClick {
            slot: 26,
            button: InventoryButton::QuickMove
        })
    );
    apply_key(&mut ui, None, press(KeyCode::BackTab));
    assert_eq!(
        apply_key(&mut ui, None, press(KeyCode::Char('r'))),
        InputAction::Queue(PlayerAction::InventoryClick {
            slot: 45,
            button: InventoryButton::Right
        })
    );
    apply_key(&mut ui, None, press(KeyCode::Tab));
    assert_eq!(ui.selected_slot(), 0);
    assert_eq!(apply_key(&mut ui, None, press(KeyCode::Char('w'))), InputAction::Nothing);
    assert_eq!(apply_key(&mut ui, None, press(KeyCode::Char('q'))), InputAction::Quit);
    assert_eq!(apply_key(&mut ui, None, press(KeyCode::Esc)), InputAction::Nothing);
    assert!(!ui.open);
}

#[test]
fn releasing_a_movement_key_stops_the_walk() {
    let mut ui = InventoryUi::default();
    let release =
        |code| KeyEvent { code, kind: KeyEventKind::Release, shift: false };
    assert_eq!(
        apply_key(&mut ui, None, release(KeyCode::Char('d'))),
        InputAction::Walk(WalkDirection::Stop)
    );
    assert_eq!(apply_key(&mut ui, None, release(KeyCode::Char('q'))), InputAction::Nothing);
    ui.open = true;
    assert_eq!(apply_key(&mut ui, None, release(KeyCode::Char('d'))), InputAction::Nothing);
    assert!(ui.open);
}

#[test]
fn layout_leaves_room_for_text_and_map() {
    assert_eq!(
        layout_for(Some((140, 45)), 120, 36),
        RenderLayout { frame_width: 120, frame_height: 36, show_minimap: true, text_columns: 139 }
    );
    assert_eq!(
        layout_for(Some((80, 24)), 80, 24),
        RenderLayout { frame_width: 60, frame_height: 19, show_minimap: true, text_columns: 79 }
    );
    assert_eq!(
        layout_for(Some((80, 23)), 80, 24),
        RenderLayout { frame_width: 79, frame_height: 18, show_minimap: false, text_columns: 79 }
    );
    assert_eq!(
        layout_for(Some((39, 40)), 80, 24),
        RenderLayout { frame_width: 38, frame_height: 24, show_minimap: false, text_columns: 38 }
    );
    assert_eq!(
        layout_for(Some((0, 0)), 80, 24),
        RenderLayout { frame_width: 1, frame_height: 1, show_minimap: false, text_columns: 1 }
    );
    assert_eq!(
        layout_for(None, 80, 24),
        RenderLayout { frame_width: 79, frame_height: 24, show_minimap: true, text_columns: 98 }
    );
}

#[test]
fn the_sidebar_frames_the_map() {
    let rows: Vec<String> = (0..15).map(|row| format!("{row:>15}")).collect();
    let line = |row| {
        let mut output = String::new();
        append_minimap_sidebar(&mut output, row, &rows);
        output
    };
    assert_eq!(line(0), "\x1b[0m  minimap (N up)");
    assert_eq!(line(1), "\x1b[0m  +---------------+");
    assert_eq!(line(2), "\x1b[0m  |              0|");
    assert_eq!(line(16), "\x1b[0m  |             14|");
    assert_eq!(line(17), line(1));
    assert_eq!(line(18), "\x1b[0m  ? = unloaded");
    assert_eq!(line(19), "\x1b[0m  ");
    let mut output = String::new();
    append_minimap_sidebar(&mut output, 0, &Vec::new());
    assert_eq!(output, "");
    let short = vec!["map".to_owned()];
    append_minimap_sidebar(&mut output, 2, &short);
    append_minimap_sidebar(&mut output, 17, &short);
    assert_eq!(output, "\x1b[0m  |map|\x1b[0m  +---------------+");
}

#[test]
fn the_overlay_lists_every_slot() {
    let mut hud = HudSnapshot::default();
    hud.set_player_menu_slot(0, Some("minecraft:oak_planks"), 4);
    hud.set_player_menu_slot(1, Some("minecraft:iron_helmet"), 1);
    hud.set_player_menu_slot(45, Some("minecraft:shield"), 1);
    hud.set_carried_item(Some("minecraft:dirt"), 7);
    let mut ui = InventoryUi::default();
    ui.cycle_special_slot(-1);
    let mut output = String::new();
    append_inventory_overlay(&mut output, &hud, &ui, 10, 200);
    let lines: Vec<&str> = output.split("\r\n").collect();
    assert_eq!(lines.len(), 11);
    assert_eq!(
        lines[0],
        "\x1b[0m\x1b[2K+---------------------- inventory ----------------------+  carried [DI 7]"
    );
    assert_eq!(
        lines[1],
        "\x1b[0m\x1b[2Karmor   IH 1   ----   ----   ----    offhand >SH 1<"
    );
    assert_eq!(
        lines[2],
        "\x1b[0m\x1b[2Kcraft   ----   ----     ----   ----    ->  OP 4 "
    );
    assert!(lines[3].starts_with("\x1b[0m\x1b[2Kmain    ----   ----"));
    assert!(lines[6].starts_with("\x1b[0m\x1b[2Khotbar  ----   ----"));
    assert_eq!(lines[9], "\x1b[0m\x1b[2K");
}

struct Empty;

impl BlockSource for Empty {
    fn voxel(&self, position: BlockPos) -> Voxel {
        self.voxel_at(position)
    }

    fn light(&self, position: BlockPos) -> LightLevels {
        self.light_at(position)
    }

    fn voxel_at(&self, _position: BlockPos) -> Voxel {
        Voxel::Air
    }

    fn light_at(&self, _position: BlockPos) -> LightLevels {
        LightLevels::full_sky()
    }
}

fn frame() -> Frame {
    Frame {
        width: 2,
        sample_height: 4,
        pixels: (0..8).map(|i| Rgb::new(i, i, i)).collect(),
    }
}

#[test]
fn a_screen_holds_header_view_and_hud() {
    let map = navigation_minimap(&Empty, BlockPos::new(0, 64, 0), 0, 7);
    assert_eq!(map.lines().count(), 15);
    assert!(map.lines().all(|line| line.len() == 15));
    let hud = HudSnapshot::default();
    let mut view = DrawView {
        status: "status",
        target: "a long target",
        hud: &hud,
        minimap: Some(&map),
        inventory_ui: InventoryUi::default(),
        reports_key_releases: false,
        text_columns: 6,
    };
    let screen = draw(&frame(), &view);
    let erase = "\x1b[0m\x1b[2K";
    assert_eq!(
        screen,
        format!(
            "\x1b[H{erase}status\r\n{erase}a long\r\n{erase}WASD m\r\n\
             \x1b[38;2;0;0;0m\x1b[48;2;2;2;2m▀\x1b[38;2;1;1;1m\x1b[48;2;3;3;3m▀\
             \x1b[0m  minimap (N up)\x1b[0m\x1b[K\r\n\
             \x1b[38;2;4;4;4m\x1b[48;2;6;6;6m▀\x1b[38;2;5;5;5m\x1b[48;2;7;7;7m▀\
             \x1b[0m  +---------------+\x1b[0m\x1b[K\r\n\
             {erase}HP    \r\n{erase}hotbar"
        )
    );
    // Two rows of view show no row of the map.
    view.minimap = Some("short");
    assert_eq!(draw(&frame(), &view), screen);
    view.inventory_ui.open = true;
    let screen = draw(&frame(), &view);
    assert_eq!(
        screen,
        format!(
            "\x1b[H{erase}status\r\n{erase}a long\r\n{erase}invent\r\n\
             {erase}+-----\r\n{erase}armor \r\n{erase}HP    \r\n{erase}hotbar"
        )
    );
    assert!(controls_line(false, true).starts_with("WASD move/release stop"));
}

struct Wall;

impl BlockSource for Wall {
    fn voxel(&self, position: BlockPos) -> Voxel {
        self.voxel_at(position)
    }

    fn light(&self, position: BlockPos) -> LightLevels {
        self.light_at(position)
    }

    fn voxel_at(&self, position: BlockPos) -> Voxel {
        if position.x == 2 {
            Voxel::Solid(Block { id: "stone" })
        } else if position.x == -2 {
            Voxel::Unloaded
        } else {
            Voxel::Air
        }
    }

    fn light_at(&self, _position: BlockPos) -> LightLevels {
        LightLevels::new(3, 12)
    }
}

/// A ray along the x axis with crossings at the given distances.
fn along_x(step: i32, sides: &[f64]) -> Ray {
    let still = AxisCrossings { step: 0, sides: Vec::new() };
    Ray {
        start: BlockPos::new(0, 5, 0),
        x: AxisCrossings {
            step,
            sides: sides.iter().map(|side| Distance::from_bits(side.to_bits())).collect(),
        },
        y: still.clone(),
        z: still,
    }
}

fn tenths(distance: Distance) -> String {
    format!("{:.1}", f64::from_bits(distance.to_bits()))
}

#[test]
fn the_target_line_names_what_is_looked_at() {
    let near = along_x(1, &[1.0, 2.0]);
    assert_eq!(
        target_readout(&Wall, Some(&near), &tenths, "48"),
        (
            "target: stone @ (2, 5, 0)  2.0m  West  light 3/12".to_owned(),
            Some(BlockPos::new(2, 5, 0))
        )
    );
    let far = along_x(1, &[4.0, 5.5]);
    assert_eq!(target_readout(&Wall, Some(&far), &tenths, "48").1, None);
    let edge = along_x(1, &[4.0, 5.0]);
    assert_eq!(
        target_readout(&Wall, Some(&edge), &tenths, "48").1,
        Some(BlockPos::new(2, 5, 0))
    );
    assert_eq!(
        target_readout(&Wall, Some(&along_x(-1, &[0.5, 1.5])), &tenths, "48"),
        ("target: unloaded at (-2, 5, 0) after 1.5m".to_owned(), None)
    );
    assert_eq!(
        target_readout(&Wall, Some(&along_x(1, &[1.0])), &tenths, "48"),
        ("target: sky (no block within 48m)".to_owned(), None)
    );
    let inside = Ray { start: BlockPos::new(2, 5, 0), ..along_x(0, &[]) };
    assert_eq!(
        target_readout(&Wall, Some(&inside), &tenths, "48").0,
        "target: stone @ (2, 5, 0)  0.0m  inside  light 3/12"
    );
}

#[test]
fn the_ray_mode_reports_the_first_block() {
    let hundredths = |distance: Distance| format!("{:.2}", f64::from_bits(distance.to_bits()));
    assert_eq!(
        forward_hit(&Wall, Some(&along_x(1, &[1.0, 2.0])), &hundredths, "48"),
        "ray: stone at (2, 5, 0) (2.00 blocks, Some(West) face)"
    );
    assert_eq!(
        forward_hit(&Wall, Some(&along_x(-1, &[1.0, 2.0])), &hundredths, "48"),
        "ray: chunk unloaded at (-2, 5, 0) after 2.00 blocks"
    );
    assert_eq!(
        forward_hit(&Wall, None, &hundredths, "48"),
        "ray: no block within 48 blocks"
    );
}

#[test]
fn frames_are_counted_window_by_window() {
    assert_eq!(count_frame(0, false), (1, None));
    assert_eq!(count_frame(11, false), (12, None));
    assert_eq!(count_frame(11, true), (0, Some(12)));
    assert_eq!(count_frame(u32::MAX - 1, true), (0, Some(u32::MAX)));
}

#[test]
fn frames_are_paced_by_what_is_left_of_the_period() {
    assert_eq!(frame_pause(100, 30), 70);
    assert_eq!(frame_pause(100, 100), 0);
    assert_eq!(frame_pause(100, u64::MAX), 0);
    assert_eq!(frame_pause(u64::MAX, 0), u64::MAX);
}

#[test]
fn status_lines_align_their_numbers() {
    let numbers = ViewNumbers {
        fps: "9.5".to_owned(),
        render_ms: "12.0".to_owned(),
        x: "0.5".to_owned(),
        y: "64.0".to_owned(),
        z: "-3.2".to_owned(),
        yaw: "90.0".to_owned(),
        pitch: "-6.0".to_owned(),
    };
    assert_eq!(
        view_status_line(false, &numbers),
        "mctui   9.5 fps   12.0 ms  pos 0.5 64.0 -3.2  yaw 90.0 pitch -6.0"
    );
    assert!(view_status_line(true, &numbers).starts_with("mctui +textures   9.5 fps"));
    assert_eq!(
        monitor_line("1.00 2.00 3.00", "0.0", "1.5", Some(LightLevels::new(4, 15)), "1.00", true),
        "position 1.00 2.00 3.00  yaw 0.0 pitch 1.5  light block=4 sky=15  day 1.00 (packet clock)"
    );
    assert_eq!(
        monitor_line("1.00 2.00 3.00", "0.0", "1.5", None, "1.00", false),
        "position 1.00 2.00 3.00  yaw 0.0 pitch 1.5  light pending  day 1.00 (initial noon fallback)"
    );
    assert_eq!(
        minimap_heading(BlockPos::new(1, -2, 3)),
        "\x1b[H\x1b[2Jminimap at (1, -2, 3) (Y layer -2)"
    );
}

#[test]
fn lines_split_as_text_lines_do() {
    for text in ["", "a", "a\n", "a\nb", "\n\n", "a\r\nb\r\n", "a\r", "\r\n", "x\ry\n"] {
        let expected: Vec<&str> = text.lines().collect();
        assert_eq!(split_lines(text), expected);
    }
}

#[test]
fn unsigned_numbers_parse_as_the_standard_library_parses_them() {
    for text in ["0", "7", "255", "256", "+12", "++1", "+", "", "-1", "1 ", " 1", "0255", "12a"] {
        assert_eq!(parse_unsigned(text, 255), text.parse::<u8>().ok().map(u64::from));
    }
    assert_eq!(parse_unsigned("18446744073709551615", u64::MAX), Some(u64::MAX));
    assert_eq!(parse_unsigned("18446744073709551616", u64::MAX), None);
}
