//! Block overrides, and what packets, ticks and actions do to a session.
use mctui::config::Mode;
use mctui::hud::Reading;
use mctui::input::{InventoryButton, PlayerAction};
use mctui::lighting::LIGHT_SECTION_BYTES;
use mctui::overrides::{
    block_override_from_id, live_light, live_voxel, BlockOverride, BlockOverrides,
};
use mctui::session::{
    plan_tick, BlockChange, ClientAction, ClientEvent, ClockUpdate, ItemStack, SessionSettings,
    TickPlan, TickReport,
};
use mctui::{
    Block, BlockPos, ClientState, GamePacket, LightLevels, PacketLightData, Voxel, WorldTime,
};

type State = ClientState<u32, u64>;

#[test]
fn block_override_preserves_air_and_solid_states() {
    assert_eq!(block_override_from_id("air"), BlockOverride::Air);
    assert_eq!(block_override_from_id("cave_air"), BlockOverride::Air);
    assert_eq!(block_override_from_id("dirt"), BlockOverride::Solid("dirt"));
}

#[test]
fn confirmed_block_overrides_are_removed_but_unconfirmed_ones_remain() {
    let confirmed = BlockPos::new(1, 64, 1);
    let changed_again = BlockPos::new(2, 64, 1);
    let unloaded = BlockPos::new(3, 64, 1);
    let mut overrides = BlockOverrides::new();
    overrides.set_block_override(confirmed, "air");
    overrides.set_block_override(changed_again, "dirt");
    overrides.set_block_override(unloaded, "stone");

    overrides.retain_unconfirmed_block_overrides(|position: BlockPos| match position {
        value if value == confirmed => Some("void_air"),
        value if value == changed_again => Some("grass_block"),
        _ => None,
    });

    assert!(overrides.get(confirmed).is_none());
    assert_eq!(overrides.get(changed_again), Some(BlockOverride::Solid("dirt")));
    assert_eq!(overrides.get(unloaded), Some(BlockOverride::Solid("stone")));
}

#[test]
fn forgetting_a_chunk_removes_only_its_overrides() {
    let mut overrides = BlockOverrides::new();
    overrides.set_block_override(BlockPos::new(0, 64, 0), "air");
    overrides.set_block_override(BlockPos::new(-1, 64, -1), "stone");
    overrides.set_block_override(BlockPos::new(16, 64, 0), "dirt");

    overrides.remove_chunk_block_overrides(-1, -1);
    assert!(overrides.get(BlockPos::new(-1, 64, -1)).is_none());
    assert!(overrides.get(BlockPos::new(0, 64, 0)).is_some());
    assert!(overrides.get(BlockPos::new(16, 64, 0)).is_some());
}

#[test]
fn a_solid_override_is_confirmed_by_the_same_block() {
    let position = BlockPos::new(i32::MIN, i32::MAX, -7);
    let mut overrides = BlockOverrides::new();
    overrides.set_block_override(position, "dirt");
    overrides.set_block_override(position, "stone");
    assert_eq!(overrides.get(position), Some(BlockOverride::Solid("stone")));
    overrides.retain_unconfirmed_block_overrides(|_position: BlockPos| Some("stone"));
    assert_eq!(overrides.get(position), None);
    overrides.set_block_override(position, "dirt");
    overrides.clear();
    assert_eq!(overrides.get(position), None);
}

#[test]
fn the_live_world_prefers_overrides_and_never_invents_air() {
    assert_eq!(live_voxel(Some(BlockOverride::Air), Some("stone")), Voxel::Air);
    assert_eq!(live_voxel(None, Some("void_air")), Voxel::Air);
    assert_eq!(live_voxel(None, Some("stone")), Voxel::Solid(Block { id: "stone" }));
    assert_eq!(live_voxel(None, None), Voxel::Unloaded);
    assert_eq!(
        live_voxel(Some(BlockOverride::Solid("dirt")), None),
        Voxel::Solid(Block { id: "dirt" })
    );
    assert_eq!(live_light(None), LightLevels::new(0, 15));
    assert_eq!(live_light(Some(LightLevels::new(3, 0))), LightLevels::new(3, 0));
}

fn section(level: u8) -> Box<[u8]> {
    vec![level * 0x11; LIGHT_SECTION_BYTES].into_boxed_slice()
}

fn sky<'a>(present: &'a [usize], updates: &'a [Box<[u8]>]) -> PacketLightData<'a> {
    PacketLightData {
        sky_present: present,
        block_present: &[],
        empty_sky: &[],
        empty_block: &[],
        sky_updates: updates,
        block_updates: &[],
    }
}

#[test]
fn a_block_update_is_bright_until_light_arrives() {
    let mut state = State::new();
    let position = BlockPos::new(3, 4, 5);
    let updates = [section(6)];
    state.capture_protocol_data(
        GamePacket::LightUpdate { x: 0, z: 0, min_y: Some(0), light: sky(&[1], &updates) },
        0,
    );
    assert_eq!(live_light(state.lighting.light_at(position)), LightLevels::new(0, 6));
    state.capture_protocol_data(
        GamePacket::BlockUpdate(BlockChange { position, id: "cave_air" }),
        0,
    );
    assert_eq!(live_light(state.lighting.light_at(position)), LightLevels::new(0, 15));
    assert_eq!(live_voxel(state.overrides.get(position), Some("stone")), Voxel::Air);
    let updates = [section(2)];
    state.capture_protocol_data(
        GamePacket::LevelChunkWithLight { x: 0, z: 0, min_y: Some(0), light: sky(&[1], &updates) },
        0,
    );
    assert_eq!(live_light(state.lighting.light_at(position)), LightLevels::new(0, 2));
    assert_eq!(state.overrides.get(position), None);
}

#[test]
fn light_is_ignored_while_the_bottom_of_the_world_is_unknown() {
    let mut state = State::new();
    let updates = [section(6)];
    state.overrides.set_block_override(BlockPos::new(0, 0, 0), "stone");
    state.capture_protocol_data(
        GamePacket::LevelChunkWithLight { x: 0, z: 0, min_y: None, light: sky(&[1], &updates) },
        0,
    );
    assert_eq!(state.lighting.light_at(BlockPos::new(0, 0, 0)), None);
    assert_eq!(state.overrides.get(BlockPos::new(0, 0, 0)), None);
}

#[test]
fn section_updates_apply_in_order() {
    let mut state = State::new();
    let first = BlockPos::new(1, 1, 1);
    let second = BlockPos::new(2, 1, 1);
    let changes = [
        BlockChange { position: first, id: "stone" },
        BlockChange { position: second, id: "dirt" },
        BlockChange { position: first, id: "air" },
    ];
    state.capture_protocol_data(GamePacket::SectionBlocksUpdate(&changes), 0);
    assert_eq!(state.overrides.get(first), Some(BlockOverride::Air));
    assert_eq!(state.overrides.get(second), Some(BlockOverride::Solid("dirt")));
    state.capture_protocol_data(GamePacket::ForgetLevelChunk { x: 0, z: 0 }, 0);
    assert_eq!(state.overrides.get(first), None);
}

fn time_packet<'a>(clocks: &'a [ClockUpdate<u32>], game_time: u64) -> GamePacket<'a, u32> {
    GamePacket::SetTime { clocks, game_time, no_partial_tick: 0, normal_rate: 1 }
}

fn ticks(state: &State) -> u64 {
    state.lighting.time(0, 1, |_anchor| (0, 0)).total_ticks
}

#[test]
fn only_an_overworld_clock_replaces_a_known_clock() {
    let mut state = State::new();
    let time = |total_ticks| WorldTime { total_ticks, partial_tick: 0, rate: 1 };
    let nether = ClockUpdate { overworld: false, time: time(1) };
    let overworld = ClockUpdate { overworld: true, time: time(2) };
    let later = ClockUpdate { overworld: true, time: time(3) };

    state.capture_protocol_data(time_packet(&[nether], 77), 10);
    assert_eq!(ticks(&state), 77);
    state.capture_protocol_data(time_packet(&[nether], 88), 11);
    assert_eq!(ticks(&state), 77);
    state.capture_protocol_data(time_packet(&[nether, overworld, later], 99), 12);
    assert_eq!(ticks(&state), 2);
    state.capture_protocol_data(GamePacket::Respawn, 13);
    assert_eq!(ticks(&state), 2);
    state.log_in();
    assert_eq!(ticks(&state), 6_000);
}

#[test]
fn hud_packets_fill_the_hud() {
    let mut state = State::new();
    let health = Reading { text: "7.5".to_owned(), filled: 4 };
    state.capture_protocol_data(GamePacket::SetHealth { health, food: 31 }, 0);
    state.capture_protocol_data(GamePacket::SetExperience { filled: 3, level: 5 }, 0);
    state.capture_protocol_data(GamePacket::SetHeldSlot { slot: 8 }, 0);
    state.capture_protocol_data(GamePacket::SetHeldSlot { slot: 9 }, 0);
    assert_eq!(
        state.hud.status_line(),
        "HP  7.5/20 [####------]  Food 20/20 [##########]  XP Lv   5 [###-------]"
    );
    assert_eq!(state.hud.selected_hotbar_slot, 8);
}

#[test]
fn inventory_packets_reach_their_slots() {
    let mut state = State::new();
    let stone = ItemStack { item_id: Some("minecraft:stone"), count: 3 };
    let log = ItemStack { item_id: Some("minecraft:oak_log"), count: 1 };
    let nothing = ItemStack { item_id: None, count: 0 };
    state.capture_protocol_data(
        GamePacket::ContainerSetContent {
            container_id: 0,
            items: &[nothing, stone, log],
            carried: log,
        },
        0,
    );
    assert_eq!(state.hud.inventory_cell(1, false), " ST 3 ");
    assert_eq!(state.hud.inventory_cell(2, true), ">OL 1<");
    assert_eq!(state.hud.carried_cell(), "OL 1");
    // Other containers are not the player's inventory.
    state.capture_protocol_data(
        GamePacket::ContainerSetContent { container_id: 1, items: &[log], carried: nothing },
        0,
    );
    state.capture_protocol_data(
        GamePacket::ContainerSetSlot { container_id: 3, slot: 1, item: log },
        0,
    );
    assert_eq!(state.hud.inventory_cell(0, false), " ---- ");
    assert_eq!(state.hud.carried_cell(), "OL 1");
    state.capture_protocol_data(
        GamePacket::ContainerSetSlot { container_id: -2, slot: 1, item: log },
        0,
    );
    assert_eq!(state.hud.inventory_cell(1, false), " OL 1 ");
    state.capture_protocol_data(GamePacket::SetPlayerInventory { slot: 0, item: stone }, 0);
    assert_eq!(state.hud.inventory_cell(36, false), " ST 3 ");
    state.capture_protocol_data(GamePacket::SetPlayerInventory { slot: 9, item: log }, 0);
    assert_eq!(state.hud.inventory_cell(9, false), " OL 1 ");
    state.capture_protocol_data(GamePacket::SetCursorItem { item: nothing }, 0);
    assert_eq!(state.hud.carried_cell(), "----");
    state.capture_protocol_data(GamePacket::Other, 0);
    assert_eq!(state.hud.carried_cell(), "----");
}

#[test]
fn the_renderer_starts_once_and_only_in_render_mode() {
    let mut state = State::new();
    assert!(!state.spawn(Mode::Monitor));
    assert!(state.spawn(Mode::Render));
    state.log_in();
    assert!(!state.spawn(Mode::Render));
}

#[test]
fn actions_and_air_reach_the_hud() {
    let mut state = State::new();
    state.note_action(PlayerAction::SelectHotbarSlot(4));
    assert_eq!(state.hud.selected_hotbar_slot, 4);
    state.note_action(PlayerAction::InventoryClick { slot: 7, button: InventoryButton::Right });
    assert_eq!(state.hud.selected_hotbar_slot, 4);
    state.refresh_drowning_indicator(None, true);
    assert_eq!(state.hud.drowning(), None);
    state.refresh_drowning_indicator(Some(120), true);
    assert_eq!(state.hud.drowning(), Some(120));
    state.refresh_drowning_indicator(Some(300), false);
    assert_eq!(state.hud.drowning(), None);
}

#[test]
fn each_mode_reports_at_its_own_pace() {
    let quiet = TickPlan { refresh_entities: false, report: TickReport::Nothing };
    assert_eq!(plan_tick(Mode::Monitor, true, 20).report, TickReport::Position);
    assert_eq!(plan_tick(Mode::Monitor, true, 25), quiet);
    assert_eq!(plan_tick(Mode::Minimap, true, 8).report, TickReport::Minimap);
    assert_eq!(plan_tick(Mode::Minimap, true, 10), quiet);
    assert_eq!(plan_tick(Mode::Ray, true, 15).report, TickReport::ForwardRay);
    assert_eq!(plan_tick(Mode::Render, false, 5), quiet);
    assert_eq!(
        plan_tick(Mode::Render, true, 5),
        TickPlan { refresh_entities: true, report: TickReport::Nothing }
    );
    assert_eq!(plan_tick(Mode::Render, true, 6), quiet);
}

#[test]
fn events_are_answered() {
    let mut state = State::new();
    let settings =
        SessionSettings { mode: Mode::Render, render_entities: true, view_distance: 9 };
    let mut handle = |event| state.handle_event(settings, event, 0);
    assert_eq!(handle(ClientEvent::Init), ClientAction::RequestChunks { view_distance: 9 });
    assert_eq!(handle(ClientEvent::Login), ClientAction::AnnounceLogin);
    assert_eq!(
        handle(ClientEvent::Spawn),
        ClientAction::AnnounceSpawn { start_renderer: true }
    );
    assert_eq!(
        handle(ClientEvent::Spawn),
        ClientAction::AnnounceSpawn { start_renderer: false }
    );
    assert_eq!(handle(ClientEvent::Chat), ClientAction::PrintChat);
    assert_eq!(
        handle(ClientEvent::Tick { ticks_connected: 10 }),
        ClientAction::Tick(TickPlan { refresh_entities: true, report: TickReport::Nothing })
    );
    assert_eq!(handle(ClientEvent::Disconnect), ClientAction::ReportDisconnect);
    assert_eq!(handle(ClientEvent::ConnectionFailed), ClientAction::ReportConnectionFailure);
    assert_eq!(handle(ClientEvent::Other), ClientAction::Nothing);
    let change = BlockChange { position: BlockPos::new(7, 7, 7), id: "stone" };
    let packet = ClientEvent::Packet(GamePacket::BlockUpdate(change));
    assert_eq!(handle(packet), ClientAction::Nothing);
    assert_eq!(state.overrides.get(change.position), Some(BlockOverride::Solid("stone")));
    state.handle_event(settings, ClientEvent::Login, 0);
    assert_eq!(state.overrides.get(change.position), None);
}
