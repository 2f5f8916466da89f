//! What the client keeps of a session, and how packets, ticks and player
//! actions change it.
use vstd::prelude::*;

use crate::config::Mode;
use crate::grid::{Block, BlockPos, LightLevels, Voxel};
use crate::hud::{empty_slot, slot_content, HudSnapshot, Reading, SlotView};
use crate::input::PlayerAction;
use crate::lighting::{
    in_chunk, law_cell_index_is_unique, law_chunks_are_columns, packet_fits, section_of,
    ClockAnchor, LightStore, PacketLightData, WorldTime,
};
use crate::overrides::{
    live_light_of, live_voxel_of, override_of, override_voxel, BlockOverrides,
};
use crate::text::begins_with;

verus! {

/// A stack of items as the server sends it.
#[derive(Clone, Copy, Debug, PartialEq, Eq)]
pub struct ItemStack<'a> {
    /// The item, unless the stack is empty.
    pub item_id: Option<&'a str>,
    pub count: i32,
}

/// What a slot shows that holds a stack.
pub open spec fn stack_content(stack: ItemStack<'_>) -> SlotView {
    slot_content(
        match stack.item_id {
            Some(id) => Some(id@),
            None => None,
        },
        stack.count as int,
    )
}

/// A changed block.
#[derive(Clone, Copy, Debug, PartialEq, Eq)]
pub struct BlockChange {
    pub position: BlockPos,
    pub id: &'static str,
}

/// One clock of a time packet.
#[derive(Clone, Copy, Debug, PartialEq, Eq)]
pub struct ClockUpdate<F> {
    /// Whether this is the clock of the Overworld.
    pub overworld: bool,
    pub time: WorldTime<F>,
}

/// The packets that the client keeps data of. `F` is the caller's type for
/// fractions of a tick.
pub enum GamePacket<'a, F> {
    SetTime {
        clocks: &'a [ClockUpdate<F>],
        game_time: u64,
        /// The fraction of a tick that a clock starts with.
        no_partial_tick: F,
        /// The rate of a clock that runs at normal speed.
        normal_rate: F,
    },
    ForgetLevelChunk { x: i32, z: i32 },
    /// `min_y` is the lowest block of the world, where it is known.
    LightUpdate { x: i32, z: i32, min_y: Option<i32>, light: PacketLightData<'a> },
    LevelChunkWithLight { x: i32, z: i32, min_y: Option<i32>, light: PacketLightData<'a> },
    BlockUpdate(BlockChange),
    SectionBlocksUpdate(&'a [BlockChange]),
    Respawn,
    SetHealth { health: Reading, food: u32 },
    /// `filled` counts the filled cells of the experience meter.
    SetExperience { filled: usize, level: u32 },
    SetHeldSlot { slot: usize },
    ContainerSetContent { container_id: i32, items: &'a [ItemStack<'a>], carried: ItemStack<'a> },
    ContainerSetSlot { container_id: i32, slot: usize, item: ItemStack<'a> },
    SetPlayerInventory { slot: usize, item: ItemStack<'a> },
    SetCursorItem { item: ItemStack<'a> },
    Other,
}

/// Whether a spawn starts the renderer: the first one in render mode does.
pub open spec fn spawn_starts(mode: Mode, started: bool) -> bool {
    mode == Mode::Render && !started
}

/// Whether the renderer was started before or by a spawn.
pub open spec fn started_after(mode: Mode, started: bool) -> bool {
    started || mode == Mode::Render
}

/// The HUD once an action of the player is shown.
pub open spec fn hud_noted(hud: HudSnapshot, action: PlayerAction) -> HudSnapshot {
    match action {
        PlayerAction::SelectHotbarSlot(slot) => if slot < 9 {
            HudSnapshot { selected_hotbar_slot: slot as usize, ..hud }
        } else {
            hud
        },
        _ => hud,
    }
}

/// The HUD once the air supply is shown, if it is known.
pub open spec fn hud_breathing(
    hud: HudSnapshot,
    air_supply: Option<i32>,
    underwater: bool,
) -> HudSnapshot {
    if air_supply is Some {
        HudSnapshot { air_supply, underwater, ..hud }
    } else {
        hud
    }
}

/// Everything that the client keeps of a session.
#[derive(Debug)]
pub struct ClientState<F, I> {
    pub lighting: LightStore<F, I>,
    pub hud: HudSnapshot,
    pub overrides: BlockOverrides,
    pub renderer_started: bool,
}

/// The first clock of the Overworld.
pub open spec fn overworld_time<F>(clocks: Seq<ClockUpdate<F>>) -> Option<WorldTime<F>>
    decreases clocks.len(),
{
    if clocks.len() == 0 {
        None
    } else if clocks[0].overworld {
        Some(clocks[0].time)
    } else {
        overworld_time(clocks.skip(1))
    }
}

/// The clock reading after a time packet. A packet without an Overworld clock
/// gives an initial value, but never replaces a known reading.
pub open spec fn clock_after<F, I>(
    before: Option<ClockAnchor<F, I>>,
    clocks: Seq<ClockUpdate<F>>,
    initial: WorldTime<F>,
    received_at: I,
) -> Option<ClockAnchor<F, I>> {
    match overworld_time(clocks) {
        Some(time) => Some(ClockAnchor { time, received_at }),
        None => match before {
            Some(anchor) => Some(anchor),
            None => Some(ClockAnchor { time: initial, received_at }),
        },
    }
}

/// The last of the first `n` changes that concerns a position.
pub open spec fn last_change(changes: Seq<BlockChange>, p: BlockPos, n: nat) -> Option<BlockChange>
    decreases n,
{
    if n == 0 {
        None
    } else if changes[n - 1].position == p {
        Some(changes[n - 1])
    } else {
        last_change(changes, p, (n - 1) as nat)
    }
}

/// Whether the light of two stores differs nowhere but at changed positions,
/// whose light now is unknown.
pub open spec fn light_changed<F, I>(
    before: LightStore<F, I>,
    after: LightStore<F, I>,
    changes: Seq<BlockChange>,
    n: nat,
) -> bool {
    &&& forall|x: i32, z: i32, y: int| #[trigger] after.sky(x, z, y) == before.sky(x, z, y)
    &&& forall|x: i32, z: i32, y: int| #[trigger] after.block(x, z, y) == before.block(x, z, y)
    &&& forall|p: BlockPos| #[trigger]
        after.is_stale(p) == (before.is_stale(p) || last_change(changes, p, n) is Some)
    &&& after.clock() == before.clock()
}

/// Whether overrides differ nowhere but at changed positions, which show the
/// last change.
pub open spec fn overrides_changed(
    before: BlockOverrides,
    after: BlockOverrides,
    changes: Seq<BlockChange>,
    n: nat,
) -> bool {
    forall|p: BlockPos| #[trigger]
        after.at(p) == (match last_change(changes, p, n) {
            Some(change) => Some(override_of(change.id)),
            None => before.at(p),
        })
}

/// Whether `after` lacks the overrides of a chunk and no others.
pub open spec fn chunk_overrides_removed(
    before: BlockOverrides,
    after: BlockOverrides,
    x: i32,
    z: i32,
) -> bool {
    forall|p: BlockPos| #[trigger]
        after.at(p) == (if in_chunk(p, x, z) {
            None
        } else {
            before.at(p)
        })
}

/// Whether light was taken from a packet, as far as the bottom of the world is
/// known.
pub open spec fn light_taken<F, I>(
    before: LightStore<F, I>,
    after: LightStore<F, I>,
    x: i32,
    z: i32,
    min_y: Option<i32>,
    light: PacketLightData<'_>,
) -> bool {
    match min_y {
        Some(min_y) => before.packet_applied(after, x, z, min_y, light),
        None => after == before,
    }
}

/// Whether `after` differs from `before` in one slot of the menu at most,
/// which then shows the stack. A slot beyond the menu changes nothing.
pub open spec fn slot_set(
    before: HudSnapshot,
    after: HudSnapshot,
    slot: int,
    item: ItemStack<'_>,
) -> bool {
    &&& after.same_but_slots(before)
    &&& forall|i: int| #[trigger]
        after.slot(i) == (if i == slot && slot < 46 {
            stack_content(item)
        } else {
            before.slot(i)
        })
}

/// Whether `after` shows the first `n` stacks in the first slots of the menu.
pub open spec fn menu_filled(
    before: HudSnapshot,
    after: HudSnapshot,
    items: Seq<ItemStack<'_>>,
    n: int,
) -> bool {
    forall|i: int| #[trigger]
        after.slot(i) == (if 0 <= i < n && i < 46 {
            stack_content(items[i])
        } else {
            before.slot(i)
        })
}

/// The menu slot that a player-inventory packet speaks of: its first nine
/// slots are the hotbar.
pub open spec fn inventory_slot(slot: usize) -> int {
    if slot <= 8 {
        36 + slot
    } else {
        slot as int
    }
}

/// Whether a packet's light can be stored.
pub open spec fn capturable<F>(packet: GamePacket<'_, F>) -> bool {
    match packet {
        GamePacket::LightUpdate { min_y: Some(min_y), light, .. } => packet_fits(min_y, light),
        GamePacket::LevelChunkWithLight { min_y: Some(min_y), light, .. } => packet_fits(
            min_y,
            light,
        ),
        _ => true,
    }
}

/// Whether `after` is the state once a packet was captured.
pub open spec fn captured<F, I>(
    before: ClientState<F, I>,
    after: ClientState<F, I>,
    packet: GamePacket<'_, F>,
    received_at: I,
) -> bool {
    &&& after.renderer_started == before.renderer_started
    &&& match packet {
        GamePacket::SetTime { clocks, game_time, no_partial_tick, normal_rate } => {
            &&& forall|x: i32, z: i32| #[trigger] after.lighting.same_light_in(before.lighting, x, z)
            &&& after.lighting.clock() == clock_after(
                before.lighting.clock(),
                clocks@,
                WorldTime { total_ticks: game_time, partial_tick: no_partial_tick, rate: normal_rate },
                received_at,
            )
            &&& after.hud == before.hud
            &&& after.overrides == before.overrides
        },
        GamePacket::ForgetLevelChunk { x, z } => {
            &&& after.lighting.is_unlit_in(x, z)
            &&& after.lighting.same_light_outside(before.lighting, x, z)
            &&& after.lighting.clock() == before.lighting.clock()
            &&& chunk_overrides_removed(before.overrides, after.overrides, x, z)
            &&& after.hud == before.hud
        },
        GamePacket::LightUpdate { x, z, min_y, light } => {
            &&& light_taken(before.lighting, after.lighting, x, z, min_y, light)
            &&& after.overrides == before.overrides
            &&& after.hud == before.hud
        },
        GamePacket::LevelChunkWithLight { x, z, min_y, light } => {
            &&& light_taken(before.lighting, after.lighting, x, z, min_y, light)
            &&& chunk_overrides_removed(before.overrides, after.overrides, x, z)
            &&& after.hud == before.hud
        },
        GamePacket::BlockUpdate(change) => {
            &&& light_changed(before.lighting, after.lighting, seq![change], 1)
            &&& overrides_changed(before.overrides, after.overrides, seq![change], 1)
            &&& after.hud == before.hud
        },
        GamePacket::SectionBlocksUpdate(changes) => {
            &&& light_changed(before.lighting, after.lighting, changes@, changes@.len())
            &&& overrides_changed(before.overrides, after.overrides, changes@, changes@.len())
            &&& after.hud == before.hud
        },
        GamePacket::Respawn => {
            &&& after.lighting.is_unlit()
            &&& after.lighting.clock() == before.lighting.clock()
            &&& forall|p: BlockPos| (#[trigger] after.overrides.at(p)) is None
            &&& after.hud == before.hud
        },
        GamePacket::SetHealth { health, food } => {
            &&& after.hud == (HudSnapshot {
                health: Some(health),
                food: Some(
                    if food <= 20 {
                        food
                    } else {
                        20
                    },
                ),
                ..before.hud
            })
            &&& after.lighting == before.lighting
            &&& after.overrides == before.overrides
        },
        GamePacket::SetExperience { filled, level } => {
            &&& after.hud == (HudSnapshot {
                experience_progress: Some(filled),
                experience_level: Some(level),
                ..before.hud
            })
            &&& after.lighting == before.lighting
            &&& after.overrides == before.overrides
        },
        GamePacket::SetHeldSlot { slot } => {
            &&& after.hud == (if slot < 9 {
                HudSnapshot { selected_hotbar_slot: slot, ..before.hud }
            } else {
                before.hud
            })
            &&& after.lighting == before.lighting
            &&& after.overrides == before.overrides
        },
        GamePacket::ContainerSetContent { container_id, items, carried } => {
            &&& if container_id == 0 {
                &&& menu_filled(before.hud, after.hud, items@, items@.len() as int)
                &&& after.hud.carried@ == stack_content(carried)
                &&& after.hud == (HudSnapshot {
                    slots: after.hud.slots,
                    carried: after.hud.carried,
                    ..before.hud
                })
            } else {
                after.hud == before.hud
            }
            &&& after.lighting == before.lighting
            &&& after.overrides == before.overrides
        },
        GamePacket::ContainerSetSlot { container_id, slot, item } => {
            &&& if container_id == 0 || container_id == -2 {
                slot_set(before.hud, after.hud, slot as int, item)
            } else {
                after.hud == before.hud
            }
            &&& after.lighting == before.lighting
            &&& after.overrides == before.overrides
        },
        GamePacket::SetPlayerInventory { slot, item } => {
            &&& slot_set(before.hud, after.hud, inventory_slot(slot), item)
            &&& after.lighting == before.lighting
            &&& after.overrides == before.overrides
        },
        GamePacket::SetCursorItem { item } => {
            &&& after.hud.carried@ == stack_content(item)
            &&& after.hud == (HudSnapshot { carried: after.hud.carried, ..before.hud })
            &&& after.lighting == before.lighting
            &&& after.overrides == before.overrides
        },
        GamePacket::Other => after == before,
    }
}

/// What is to be printed at a tick.
#[derive(Clone, Copy, Debug, PartialEq, Eq, Structural)]
pub enum TickReport {
    Nothing,
    Position,
    Minimap,
    ForwardRay,
}

/// What is to be done at a tick.
#[derive(Clone, Copy, Debug, PartialEq, Eq, Structural)]
pub struct TickPlan {
    /// Whether to capture the nearby entities for the renderer.
    pub refresh_entities: bool,
    pub report: TickReport,
}

/// What is to be done at a tick: each diagnostic mode reports at its own pace,
/// and the renderer gets entities four times a second if it draws them.
pub open spec fn tick_plan(mode: Mode, render_entities: bool, ticks: int) -> TickPlan {
    TickPlan {
        refresh_entities: mode == Mode::Render && render_entities && ticks % 5 == 0,
        report: match mode {
            Mode::Monitor => if ticks % 10 == 0 {
                TickReport::Position
            } else {
                TickReport::Nothing
            },
            Mode::Minimap => if ticks % 4 == 0 {
                TickReport::Minimap
            } else {
                TickReport::Nothing
            },
            Mode::Ray => if ticks % 5 == 0 {
                TickReport::ForwardRay
            } else {
                TickReport::Nothing
            },
            Mode::Render => TickReport::Nothing,
        },
    }
}

/// Decides what is to be done at a tick.
pub fn plan_tick(mode: Mode, render_entities: bool, ticks_connected: u64) -> (plan: TickPlan)
    ensures
        plan == tick_plan(mode, render_entities, ticks_connected as int),
{
    let report = match mode {
        Mode::Monitor => if ticks_connected % 10 == 0 {
            TickReport::Position
        } else {
            TickReport::Nothing
        },
        Mode::Minimap => if ticks_connected % 4 == 0 {
            TickReport::Minimap
        } else {
            TickReport::Nothing
        },
        Mode::Ray => if ticks_connected % 5 == 0 {
            TickReport::ForwardRay
        } else {
            TickReport::Nothing
        },
        Mode::Render => TickReport::Nothing,
    };
    TickPlan {
        refresh_entities: mode == Mode::Render && render_entities && ticks_connected % 5 == 0,
        report,
    }
}

/// What the configuration says of a session.
#[derive(Clone, Copy, Debug, PartialEq, Eq, Structural)]
pub struct SessionSettings {
    pub mode: Mode,
    pub render_entities: bool,
    /// The chunks to request of the server.
    pub view_distance: u8,
}

/// Something that happened to the client.
pub enum ClientEvent<'a, F> {
    /// The connection is up.
    Init,
    /// The server accepted the login.
    Login,
    /// The player is in the world.
    Spawn,
    Packet(GamePacket<'a, F>),
    Chat,
    Tick { ticks_connected: u64 },
    Disconnect,
    ConnectionFailed,
    Other,
}

/// What is to be done about an event.
#[derive(Clone, Copy, Debug, PartialEq, Eq, Structural)]
pub enum ClientAction {
    Nothing,
    /// Ask the server for chunks, and say so.
    RequestChunks { view_distance: u8 },
    /// Forget the entities of an earlier server, and announce the login.
    AnnounceLogin,
    /// Announce the spawn.
    AnnounceSpawn { start_renderer: bool },
    PrintChat,
    /// Perform queued actions, reconcile block updates, and follow the plan.
    Tick(TickPlan),
    /// Say that the server ended the connection, and exit.
    ReportDisconnect,
    /// Say that there was no connection, and exit.
    ReportConnectionFailure,
}

/// Whether an event took a session from `before` to `after` and is answered by
/// `action`.
pub open spec fn event_handled<F, I>(
    before: ClientState<F, I>,
    after: ClientState<F, I>,
    settings: SessionSettings,
    event: ClientEvent<'_, F>,
    received_at: I,
    action: ClientAction,
) -> bool {
    match event {
        ClientEvent::Init => after == before && action == (ClientAction::RequestChunks {
            view_distance: settings.view_distance,
        }),
        ClientEvent::Login => {
            &&& after.is_fresh()
            &&& after.renderer_started == before.renderer_started
            &&& action == ClientAction::AnnounceLogin
        },
        ClientEvent::Spawn => {
            &&& after == (ClientState {
                renderer_started: started_after(settings.mode, before.renderer_started),
                ..before
            })
            &&& action == (ClientAction::AnnounceSpawn {
                start_renderer: spawn_starts(settings.mode, before.renderer_started),
            })
        },
        ClientEvent::Packet(packet) => {
            &&& captured(before, after, packet, received_at)
            &&& action == ClientAction::Nothing
        },
        ClientEvent::Chat => after == before && action == ClientAction::PrintChat,
        ClientEvent::Tick { ticks_connected } => after == before && action == ClientAction::Tick(
            tick_plan(settings.mode, settings.render_entities, ticks_connected as int),
        ),
        ClientEvent::Disconnect => after == before && action == ClientAction::ReportDisconnect,
        ClientEvent::ConnectionFailed => after == before && action
            == ClientAction::ReportConnectionFailure,
        ClientEvent::Other => after == before && action == ClientAction::Nothing,
    }
}

/// The clock of the Overworld, if a time packet holds it.
fn find_overworld_time<F: Copy>(clocks: &[ClockUpdate<F>]) -> (time: Option<WorldTime<F>>)
    ensures
        time == overworld_time(clocks@),
{
    let mut i: usize = 0;
    assert(clocks@.skip(0) =~= clocks@);
    while i < clocks.len()
        invariant
            i <= clocks@.len(),
            overworld_time(clocks@.skip(i as int)) == overworld_time(clocks@),
        decreases clocks@.len() - i,
    {
        if clocks[i].overworld {
            return Some(clocks[i].time);
        }
        assert(clocks@.skip(i as int).skip(1) =~= clocks@.skip(i + 1));
        i = i + 1;
    }
    None
}

impl<F, I> ClientState<F, I> {
    /// The parts of the state are well-formed.
    pub open spec fn wf(self) -> bool {
        &&& self.lighting.wf()
        &&& self.hud.wf()
        &&& self.overrides.wf()
    }

    /// Whether the state holds nothing of any server.
    pub open spec fn is_fresh(self) -> bool {
        &&& self.lighting.is_unlit()
        &&& self.lighting.clock() is None
        &&& forall|p: BlockPos| (#[trigger] self.overrides.at(p)) is None
        &&& self.hud.health is None
        &&& self.hud.food is None
        &&& self.hud.experience_progress is None
        &&& self.hud.experience_level is None
        &&& self.hud.selected_hotbar_slot == 0
        &&& forall|i: int| #[trigger] self.hud.slot(i) == empty_slot()
        &&& self.hud.carried@ == empty_slot()
        &&& self.hud.air_supply is None
        &&& !self.hud.underwater
    }

    /// The state before the first login.
    pub fn new() -> (state: Self)
        ensures
            state.wf(),
            state.is_fresh(),
            !state.renderer_started,
    {
        ClientState {
            lighting: LightStore::new(),
            hud: HudSnapshot::default(),
            overrides: BlockOverrides::new(),
            renderer_started: false,
        }
    }

    /// Forgets all that an earlier server sent.
    pub fn log_in(&mut self)
        requires
            old(self).wf(),
        ensures
            final(self).wf(),
            final(self).is_fresh(),
            final(self).renderer_started == old(self).renderer_started,
    {
        self.lighting.clear();
        self.overrides.clear();
        self.hud = HudSnapshot::default();
    }

    /// Decides whether a spawn starts the renderer: the first one in render
    /// mode does.
    pub fn spawn(&mut self, mode: Mode) -> (start_renderer: bool)
        ensures
            start_renderer == spawn_starts(mode, old(self).renderer_started),
            *final(self) == (ClientState {
                renderer_started: started_after(mode, old(self).renderer_started),
                ..*old(self)
            }),
    {
        if mode == Mode::Render {
            let start_renderer = !self.renderer_started;
            self.renderer_started = true;
            start_renderer
        } else {
            false
        }
    }

    /// Shows at once what an action of the player will change.
    pub fn note_action(&mut self, action: PlayerAction)
        requires
            old(self).wf(),
        ensures
            final(self).wf(),
            *final(self) == (ClientState {
                hud: hud_noted(old(self).hud, action),
                ..*old(self)
            }),
    {
        match action {
            PlayerAction::SelectHotbarSlot(slot) => {
                self.hud.set_selected_hotbar_slot(slot as usize);
            },
            _ => {},
        }
    }

    /// Keeps the air supply of the player, once it is known.
    pub fn refresh_drowning_indicator(&mut self, air_supply: Option<i32>, underwater: bool)
        requires
            old(self).wf(),
        ensures
            final(self).wf(),
            *final(self) == (ClientState {
                hud: hud_breathing(old(self).hud, air_supply, underwater),
                ..*old(self)
            }),
    {
        if air_supply.is_some() {
            self.hud.set_air_supply(air_supply, underwater);
        }
    }

    /// Keeps a changed block until the streamed world shows it, and marks its
    /// light as out of date.
    fn change_block(&mut self, change: BlockChange)
        requires
            old(self).wf(),
        ensures
            final(self).wf(),
            old(self).lighting.invalidated(final(self).lighting, change.position),
            forall|p: BlockPos| #[trigger]
                final(self).overrides.at(p) == (if p == change.position {
                    Some(override_of(change.id))
                } else {
                    old(self).overrides.at(p)
                }),
            final(self).hud == old(self).hud,
            final(self).renderer_started == old(self).renderer_started,
    {
        self.overrides.set_block_override(change.position, change.id);
        self.lighting.invalidate(change.position);
    }

    /// Keeps changed blocks in the order in which they changed.
    fn change_blocks(&mut self, changes: &[BlockChange])
        requires
            old(self).wf(),
        ensures
            final(self).wf(),
            light_changed(old(self).lighting, final(self).lighting, changes@, changes@.len()),
            overrides_changed(old(self).overrides, final(self).overrides, changes@, changes@.len()),
            final(self).hud == old(self).hud,
            final(self).renderer_started == old(self).renderer_started,
    {
        let mut i: usize = 0;
        while i < changes.len()
            invariant
                i <= changes@.len(),
                self.wf(),
                light_changed(old(self).lighting, self.lighting, changes@, i as nat),
                overrides_changed(old(self).overrides, self.overrides, changes@, i as nat),
                self.hud == old(self).hud,
                self.renderer_started == old(self).renderer_started,
            decreases changes@.len() - i,
        {
            let ghost before = *self;
            self.change_block(changes[i]);
            proof {
                lemma_stale_after(before.lighting, self.lighting, changes@[i as int].position);
            }
            i = i + 1;
        }
    }

    /// Takes the light of a packet, if the bottom of the world is known.
    fn take_light(&mut self, x: i32, z: i32, min_y: Option<i32>, light: PacketLightData<'_>)
        requires
            old(self).wf(),
            min_y is Some ==> packet_fits(min_y->0, light),
        ensures
            final(self).wf(),
            light_taken(old(self).lighting, final(self).lighting, x, z, min_y, light),
            final(self).overrides == old(self).overrides,
            final(self).hud == old(self).hud,
            final(self).renderer_started == old(self).renderer_started,
    {
        match min_y {
            Some(min_y) => {
                self.lighting.apply_packet(x, z, min_y, light);
            },
            None => {},
        }
    }

    /// Shows the stacks of a whole menu.
    fn fill_menu(&mut self, items: &[ItemStack<'_>])
        requires
            old(self).wf(),
        ensures
            final(self).wf(),
            menu_filled(old(self).hud, final(self).hud, items@, items@.len() as int),
            final(self).hud.same_but_slots(old(self).hud),
            *final(self) == (ClientState { hud: final(self).hud, ..*old(self) }),
    {
        let mut slot: usize = 0;
        while slot < items.len()
            invariant
                slot <= items@.len(),
                self.wf(),
                menu_filled(old(self).hud, self.hud, items@, slot as int),
                self.hud.same_but_slots(old(self).hud),
                *self == (ClientState { hud: self.hud, ..*old(self) }),
            decreases items@.len() - slot,
        {
            self.hud.set_player_menu_slot(slot, items[slot].item_id, items[slot].count);
            slot = slot + 1;
        }
    }
}

impl<F: Copy, I> ClientState<F, I> {
    /// Keeps the clock reading of a time packet.
    ///
    /// Some servers send a clock-less first update. It is safe as an initial
    /// value, but must never replace a known Overworld clock with data from
    /// another dimension.
    fn take_time(&mut self, clocks: &[ClockUpdate<F>], initial: WorldTime<F>, received_at: I)
        requires
            old(self).wf(),
        ensures
            final(self).wf(),
            forall|x: i32, z: i32| #[trigger]
                final(self).lighting.same_light_in(old(self).lighting, x, z),
            final(self).lighting.clock() == clock_after(
                old(self).lighting.clock(),
                clocks@,
                initial,
                received_at,
            ),
            final(self).hud == old(self).hud,
            final(self).overrides == old(self).overrides,
            final(self).renderer_started == old(self).renderer_started,
    {
        match find_overworld_time(clocks) {
            Some(time) => {
                self.lighting.set_time(time, received_at);
            },
            None => {
                if !self.lighting.has_received_time() {
                    self.lighting.set_time(initial, received_at);
                }
            },
        }
    }

    /// Keeps what a packet says of light, time, blocks and the player.
    pub fn capture_protocol_data(&mut self, packet: GamePacket<'_, F>, received_at: I)
        requires
            old(self).wf(),
            capturable(packet),
        ensures
            final(self).wf(),
            captured(*old(self), *final(self), packet, received_at),
    {
        match packet {
            GamePacket::SetTime { clocks, game_time, no_partial_tick, normal_rate } => {
                let initial = WorldTime {
                    total_ticks: game_time,
                    partial_tick: no_partial_tick,
                    rate: normal_rate,
                };
                self.take_time(clocks, initial, received_at);
            },
            GamePacket::ForgetLevelChunk { x, z } => {
                self.lighting.remove_chunk(x, z);
                self.overrides.remove_chunk_block_overrides(x, z);
            },
            GamePacket::LightUpdate { x, z, min_y, light } => {
                self.take_light(x, z, min_y, light);
            },
            GamePacket::LevelChunkWithLight { x, z, min_y, light } => {
                self.take_light(x, z, min_y, light);
                // A full chunk payload supersedes any individual updates kept
                // while it was in flight.
                self.overrides.remove_chunk_block_overrides(x, z);
            },
            GamePacket::BlockUpdate(change) => {
                self.change_block(change);
                proof {
                    lemma_stale_after(old(self).lighting, self.lighting, change.position);
                    assert forall|p: BlockPos| #[trigger]
                        last_change(seq![change], p, 1) == (if p == change.position {
                            Some(change)
                        } else {
                            None
                        }) by {
                        reveal_with_fuel(last_change, 2);
                    }
                }
            },
            GamePacket::SectionBlocksUpdate(changes) => {
                self.change_blocks(changes);
            },
            GamePacket::Respawn => {
                self.overrides.clear();
                self.lighting.clear_lighting();
            },
            GamePacket::SetHealth { health, food } => {
                self.hud.set_health(health, food);
            },
            GamePacket::SetExperience { filled, level } => {
                self.hud.set_experience(filled, level);
            },
            GamePacket::SetHeldSlot { slot } => {
                self.hud.set_selected_hotbar_slot(slot);
            },
            GamePacket::ContainerSetContent { container_id, items, carried } => {
                if container_id == 0 {
                    self.fill_menu(items);
                    let ghost filled = self.hud;
                    self.hud.set_carried_item(carried.item_id, carried.count);
                    assert forall|i: int| #[trigger] self.hud.slot(i) == filled.slot(i) by {}
                }
            },
            GamePacket::ContainerSetSlot { container_id, slot, item } => {
                if container_id == 0 || container_id == -2 {
                    self.hud.set_player_menu_slot(slot, item.item_id, item.count);
                }
            },
            GamePacket::SetPlayerInventory { slot, item } => {
                if slot <= 8 {
                    self.hud.set_hotbar_slot(slot, item.item_id, item.count);
                } else {
                    self.hud.set_player_menu_slot(slot, item.item_id, item.count);
                }
            },
            GamePacket::SetCursorItem { item } => {
                self.hud.set_carried_item(item.item_id, item.count);
            },
            GamePacket::Other => {},
        }
    }
}

impl<F: Copy, I> ClientState<F, I> {
    /// Decides what an event changes and what is to be done about it.
    pub fn handle_event(
        &mut self,
        settings: SessionSettings,
        event: ClientEvent<'_, F>,
        received_at: I,
    ) -> (action: ClientAction)
        requires
            old(self).wf(),
            event matches ClientEvent::Packet(packet) ==> capturable(packet),
        ensures
            final(self).wf(),
            event_handled(*old(self), *final(self), settings, event, received_at, action),
    {
        match event {
            ClientEvent::Init => ClientAction::RequestChunks {
                view_distance: settings.view_distance,
            },
            ClientEvent::Login => {
                self.log_in();
                ClientAction::AnnounceLogin
            },
            ClientEvent::Spawn => {
                let start_renderer = self.spawn(settings.mode);
                ClientAction::AnnounceSpawn { start_renderer }
            },
            ClientEvent::Packet(packet) => {
                self.capture_protocol_data(packet, received_at);
                ClientAction::Nothing
            },
            ClientEvent::Chat => ClientAction::PrintChat,
            ClientEvent::Tick { ticks_connected } => ClientAction::Tick(
                plan_tick(settings.mode, settings.render_entities, ticks_connected),
            ),
            ClientEvent::Disconnect => ClientAction::ReportDisconnect,
            ClientEvent::ConnectionFailed => ClientAction::ReportConnectionFailure,
            ClientEvent::Other => ClientAction::Nothing,
        }
    }
}

/// Marking the light of a position as out of date does so for no other.
proof fn lemma_stale_after<F, I>(before: LightStore<F, I>, after: LightStore<F, I>, p: BlockPos)
    requires
        before.invalidated(after, p),
    ensures
        forall|q: BlockPos| #[trigger] after.is_stale(q) == (before.is_stale(q) || q == p),
{
    assert forall|q: BlockPos| #[trigger] after.is_stale(q) == (before.is_stale(q) || q == p) by {
        law_cell_index_is_unique(p, q);
    }
}

/// What the live world shows at a position, given what is streamed there.
pub open spec fn shown_at<F, I>(
    state: ClientState<F, I>,
    p: BlockPos,
    streamed_id: Option<&'static str>,
) -> Voxel {
    live_voxel_of(state.overrides.at(p), streamed_id)
}

/// The light that the live world shows at a position.
pub open spec fn light_shown_at<F, I>(state: ClientState<F, I>, p: BlockPos) -> LightLevels {
    live_light_of(state.lighting.light(p))
}

/// Whether a packet speaks of the player and not of the world.
pub open spec fn concerns_player<F>(packet: GamePacket<'_, F>) -> bool {
    match packet {
        GamePacket::SetHealth { .. } => true,
        GamePacket::SetExperience { .. } => true,
        GamePacket::SetHeldSlot { .. } => true,
        GamePacket::ContainerSetContent { .. } => true,
        GamePacket::ContainerSetSlot { .. } => true,
        GamePacket::SetPlayerInventory { .. } => true,
        GamePacket::SetCursorItem { .. } => true,
        _ => false,
    }
}

/// What the server says of the player changes nothing of the world, and what
/// it says of the world changes nothing of the HUD.
pub proof fn law_player_and_world_are_separate<F, I>(
    before: ClientState<F, I>,
    after: ClientState<F, I>,
    packet: GamePacket<'_, F>,
    received_at: I,
)
    requires
        captured(before, after, packet, received_at),
    ensures
        concerns_player(packet) ==> after.lighting == before.lighting && after.overrides
            == before.overrides,
        !concerns_player(packet) ==> after.hud == before.hud,
{
}

/// A changed block is shown at once, whatever is streamed at its position, and
/// lit as open sky until light arrives; every other position shows and is lit
/// as before.
pub proof fn law_block_updates_show_at_once<F, I>(
    before: ClientState<F, I>,
    after: ClientState<F, I>,
    change: BlockChange,
    received_at: I,
    p: BlockPos,
    streamed_id: Option<&'static str>,
)
    requires
        captured(before, after, GamePacket::BlockUpdate(change), received_at),
    ensures
        p == change.position ==> shown_at(after, p, streamed_id) == override_voxel(
            override_of(change.id),
        ) && light_shown_at(after, p) == (LightLevels { block: 0, sky: 15 }),
        p != change.position ==> shown_at(after, p, streamed_id) == shown_at(before, p, streamed_id)
            && light_shown_at(after, p) == light_shown_at(before, p),
{
    reveal_with_fuel(last_change, 2);
    assert(after.lighting.is_stale(p) == (before.lighting.is_stale(p) || last_change(
        seq![change],
        p,
        1,
    ) is Some));
}

/// A full chunk payload supersedes the updates kept while it was in flight:
/// its positions show what is streamed, and all others show as before.
pub proof fn law_chunks_supersede_updates<F, I>(
    before: ClientState<F, I>,
    after: ClientState<F, I>,
    x: i32,
    z: i32,
    min_y: Option<i32>,
    light: PacketLightData<'_>,
    received_at: I,
    p: BlockPos,
    streamed_id: Option<&'static str>,
)
    requires
        captured(
            before,
            after,
            GamePacket::LevelChunkWithLight { x, z, min_y, light },
            received_at,
        ),
    ensures
        in_chunk(p, x, z) ==> shown_at(after, p, streamed_id) == live_voxel_of(None, streamed_id),
        !in_chunk(p, x, z) ==> shown_at(after, p, streamed_id) == shown_at(before, p, streamed_id),
{
}

/// A forgotten chunk leaves neither light nor updates behind, and no other
/// chunk loses anything.
pub proof fn law_forgetting_is_local<F, I>(
    before: ClientState<F, I>,
    after: ClientState<F, I>,
    x: i32,
    z: i32,
    received_at: I,
    p: BlockPos,
)
    requires
        captured(before, after, GamePacket::ForgetLevelChunk { x, z }, received_at),
    ensures
        in_chunk(p, x, z) ==> after.lighting.light(p) is None && after.overrides.at(p) is None,
        !in_chunk(p, x, z) ==> after.lighting.light(p) == before.lighting.light(p)
            && after.overrides.at(p) == before.overrides.at(p),
{
    let cx = section_of(p.x as int) as i32;
    let cz = section_of(p.z as int) as i32;
    let cy = section_of(p.y as int);
    if !in_chunk(p, x, z) {
        assert(after.lighting.same_light_in(before.lighting, cx, cz));
        assert(after.lighting.sky(cx, cz, cy) == before.lighting.sky(cx, cz, cy));
    }
}

/// A time packet without an Overworld clock never replaces a known reading.
pub proof fn law_known_clock_is_kept<F, I>(
    before: ClientState<F, I>,
    after: ClientState<F, I>,
    clocks: &[ClockUpdate<F>],
    game_time: u64,
    no_partial_tick: F,
    normal_rate: F,
    received_at: I,
)
    requires
        captured(
            before,
            after,
            GamePacket::SetTime { clocks, game_time, no_partial_tick, normal_rate },
            received_at,
        ),
        before.lighting.clock() is Some,
        forall|i: int| 0 <= i < clocks@.len() ==> !(#[trigger] clocks@[i]).overworld,
    ensures
        after.lighting.clock() == before.lighting.clock(),
{
    lemma_no_overworld(clocks@);
}

proof fn lemma_no_overworld<F>(clocks: Seq<ClockUpdate<F>>)
    requires
        forall|i: int| 0 <= i < clocks.len() ==> !(#[trigger] clocks[i]).overworld,
    ensures
        overworld_time(clocks) is None,
    decreases clocks.len(),
{
    if clocks.len() > 0 {
        assert forall|i: int| 0 <= i < clocks.skip(1).len() implies !(#[trigger] clocks.skip(
            1,
        )[i]).overworld by {
            assert(clocks.skip(1)[i] == clocks[i + 1]);
        }
        lemma_no_overworld(clocks.skip(1));
    }
}

/// Respawning forgets the world but keeps the clock and the HUD.
pub proof fn law_respawn_keeps_the_clock<F, I>(
    before: ClientState<F, I>,
    after: ClientState<F, I>,
    received_at: I,
    p: BlockPos,
)
    requires
        captured(before, after, GamePacket::<F>::Respawn, received_at),
    ensures
        after.lighting.clock() == before.lighting.clock(),
        after.hud == before.hud,
        after.lighting.light(p) is None,
        after.overrides.at(p) is None,
{
    let cx = section_of(p.x as int) as i32;
    let cz = section_of(p.z as int) as i32;
    assert(after.lighting.is_unlit_in(cx, cz));
}

/// After a login nothing of an earlier server is left: every position shows
/// what is streamed, lit as open sky, and the clock shows noon.
pub proof fn law_login_forgets<F, I>(
    before: ClientState<F, I>,
    after: ClientState<F, I>,
    settings: SessionSettings,
    received_at: I,
    action: ClientAction,
    p: BlockPos,
    streamed_id: Option<&'static str>,
)
    requires
        event_handled(before, after, settings, ClientEvent::<F>::Login, received_at, action),
    ensures
        shown_at(after, p, streamed_id) == live_voxel_of(None, streamed_id),
        light_shown_at(after, p) == (LightLevels { block: 0, sky: 15 }),
        after.lighting.clock() is None,
{
    let cx = section_of(p.x as int) as i32;
    let cz = section_of(p.z as int) as i32;
    assert(after.lighting.is_unlit_in(cx, cz));
    assert(after.overrides.at(p) is None);
}

/// Only an end of the connection ends the program.
pub proof fn law_only_disconnection_exits<F, I>(
    before: ClientState<F, I>,
    after: ClientState<F, I>,
    settings: SessionSettings,
    event: ClientEvent<'_, F>,
    received_at: I,
    action: ClientAction,
)
    requires
        event_handled(before, after, settings, event, received_at, action),
    ensures
        (action == ClientAction::ReportDisconnect || action
            == ClientAction::ReportConnectionFailure) <==> (event is Disconnect
            || event is ConnectionFailed),
{
}

/// A hotbar slot is the same slot under both of its numbers: what one packet
/// puts into slot `slot` of the inventory, another puts into slot `36 + slot`
/// of the menu.
pub proof fn law_hotbar_is_part_of_the_menu<F, I>(
    before: ClientState<F, I>,
    by_inventory: ClientState<F, I>,
    by_menu: ClientState<F, I>,
    slot: usize,
    menu_slot: usize,
    item: ItemStack<'_>,
    received_at: I,
    i: int,
)
    requires
        slot <= 8,
        menu_slot == 36 + slot,
        captured(
            before,
            by_inventory,
            GamePacket::SetPlayerInventory { slot, item },
            received_at,
        ),
        captured(
            before,
            by_menu,
            GamePacket::ContainerSetSlot { container_id: 0, slot: menu_slot, item },
            received_at,
        ),
    ensures
        by_inventory.hud.slot(i) == by_menu.hud.slot(i),
        by_inventory.hud.slot(menu_slot as int) == stack_content(item),
{
}

/// The renderer starts at most once: after the spawn that starts it no other
/// spawn does, and no other spawn changes whether it was started.
pub proof fn law_renderer_starts_once(started: bool, mode: Mode, later: Mode)
    ensures
        spawn_starts(mode, started) ==> !spawn_starts(later, started_after(mode, started)),
        started ==> started_after(mode, started),
        !spawn_starts(mode, started) ==> started_after(mode, started) == started,
{
}

/// Whether a slot shows a stack: the item under its name without the
/// `minecraft:` namespace, and as many as there are. Air and stacks without
/// items are shown as nothing.
pub open spec fn shows_stack(slot: SlotView, stack: ItemStack<'_>) -> bool {
    match stack.item_id {
        Some(id) => if stack.count > 0 && id@ != "minecraft:air"@ {
            &&& slot.count == stack.count
            &&& slot.item == Some(
                if begins_with(id@, "minecraft:"@) {
                    id@.skip(10)
                } else {
                    id@
                },
            )
        } else {
            slot.item is None
        },
        None => slot.item is None,
    }
}

/// What a slot holds is shown.
proof fn lemma_stack_is_shown(stack: ItemStack<'_>)
    ensures
        shows_stack(stack_content(stack), stack),
{
    reveal_strlit("minecraft:");
    assert("minecraft:"@.len() == 10);
}

/// The content of the player's menu fills every slot that it has a stack for,
/// the hotbar included, as a packet for that one slot would; slots behind its
/// last stack stay, and the cursor carries the stack that comes with it. The
/// content of any other container changes nothing.
pub proof fn law_menu_content_fills_every_slot<F, I>(
    before: ClientState<F, I>,
    after: ClientState<F, I>,
    by_slot: ClientState<F, I>,
    container_id: i32,
    items: &[ItemStack<'_>],
    carried: ItemStack<'_>,
    received_at: I,
    slot: usize,
)
    requires
        after.wf(),
        before.wf(),
        captured(
            before,
            after,
            GamePacket::ContainerSetContent { container_id, items, carried },
            received_at,
        ),
        slot < 46,
    ensures
        container_id == 0 && slot < items@.len() ==> {
            &&& shows_stack(after.hud.slots@[slot as int]@, items@[slot as int])
            &&& captured(
                before,
                by_slot,
                GamePacket::ContainerSetSlot { container_id, slot, item: items@[slot as int] },
                received_at,
            ) ==> by_slot.hud.slot(slot as int) == after.hud.slot(slot as int)
        },
        container_id == 0 && slot >= items@.len() ==> after.hud.slots@[slot as int]@
            == before.hud.slots@[slot as int]@,
        container_id == 0 ==> shows_stack(after.hud.carried@, carried),
        container_id != 0 ==> after.hud == before.hud,
{
    lemma_stack_is_shown(carried);
    assert(after.hud.slot(slot as int) == after.hud.slots@[slot as int]@);
    assert(before.hud.slot(slot as int) == before.hud.slots@[slot as int]@);
    if slot < items@.len() {
        lemma_stack_is_shown(items@[slot as int]);
    }
}

/// A packet for one slot of the player's menu shows its stack there and
/// changes no other slot. Packets for slots of other containers, and for slots
/// beyond the menu, change nothing.
pub proof fn law_one_slot_is_set<F, I>(
    before: ClientState<F, I>,
    after: ClientState<F, I>,
    container_id: i32,
    slot: usize,
    item: ItemStack<'_>,
    received_at: I,
    other: int,
)
    requires
        before.wf(),
        after.wf(),
        captured(
            before,
            after,
            GamePacket::ContainerSetSlot { container_id, slot, item },
            received_at,
        ),
        0 <= other < 46,
    ensures
        (container_id == 0 || container_id == -2) && slot < 46 ==> shows_stack(
            after.hud.slots@[slot as int]@,
            item,
        ),
        other != slot ==> after.hud.slots@[other]@ == before.hud.slots@[other]@,
        container_id != 0 && container_id != -2 ==> after.hud == before.hud,
{
    lemma_stack_is_shown(item);
    assert(after.hud.slot(other) == after.hud.slots@[other]@);
    assert(before.hud.slot(other) == before.hud.slots@[other]@);
    if slot < 46 {
        assert(after.hud.slot(slot as int) == after.hud.slots@[slot as int]@);
    }
}

/// A player-inventory packet counts the hotbar from zero: its slots up to
/// eight are the menu's slots from 36 on. All others have the menu's numbers.
pub proof fn law_inventory_slots_are_menu_slots<F, I>(
    before: ClientState<F, I>,
    after: ClientState<F, I>,
    slot: usize,
    item: ItemStack<'_>,
    received_at: I,
    other: int,
)
    requires
        before.wf(),
        after.wf(),
        captured(before, after, GamePacket::SetPlayerInventory { slot, item }, received_at),
        0 <= other < 46,
    ensures
        slot < 9 ==> shows_stack(after.hud.slots@[36 + slot]@, item),
        9 <= slot < 46 ==> shows_stack(after.hud.slots@[slot as int]@, item),
        other != slot && other != 36 + slot ==> after.hud.slots@[other]@
            == before.hud.slots@[other]@,
        slot < 9 && other == slot ==> after.hud.slots@[other]@ == before.hud.slots@[other]@,
        slot >= 9 && other == 36 + slot ==> after.hud.slots@[other]@ == before.hud.slots@[other]@,
{
    lemma_stack_is_shown(item);
    assert(after.hud.slot(other) == after.hud.slots@[other]@);
    assert(before.hud.slot(other) == before.hud.slots@[other]@);
    if slot < 9 {
        assert(after.hud.slot(36 + slot) == after.hud.slots@[36 + slot]@);
    } else if slot < 46 {
        assert(after.hud.slot(slot as int) == after.hud.slots@[slot as int]@);
    }
}

/// The cursor carries what the server puts on it, and its slots stay.
pub proof fn law_cursor_carries_its_item<F, I>(
    before: ClientState<F, I>,
    after: ClientState<F, I>,
    item: ItemStack<'_>,
    received_at: I,
)
    requires
        captured(before, after, GamePacket::SetCursorItem { item }, received_at),
    ensures
        shows_stack(after.hud.carried@, item),
        after.hud.slots == before.hud.slots,
{
    lemma_stack_is_shown(item);
}

/// Health, food and experience are shown as the server sends them, with food
/// counted up to twenty, and leave the inventory alone.
pub proof fn law_vitals_are_kept<F, I>(
    before: ClientState<F, I>,
    after: ClientState<F, I>,
    health: Reading,
    food: u32,
    filled: usize,
    level: u32,
    received_at: I,
)
    ensures
        captured(before, after, GamePacket::SetHealth { health, food }, received_at) ==> {
            &&& after.hud.health == Some(health)
            &&& after.hud.food is Some
            &&& food <= 20 ==> after.hud.food == Some(food)
            &&& food > 20 ==> after.hud.food == Some(20u32)
            &&& after.hud.experience_level == before.hud.experience_level
            &&& after.hud.experience_progress == before.hud.experience_progress
            &&& after.hud.slots == before.hud.slots
            &&& after.hud.selected_hotbar_slot == before.hud.selected_hotbar_slot
        },
        captured(before, after, GamePacket::SetExperience { filled, level }, received_at) ==> {
            &&& after.hud.experience_level == Some(level)
            &&& after.hud.experience_progress == Some(filled)
            &&& after.hud.health == before.hud.health
            &&& after.hud.food == before.hud.food
            &&& after.hud.slots == before.hud.slots
            &&& after.hud.selected_hotbar_slot == before.hud.selected_hotbar_slot
        },
{
}

/// The server and the player select a hotbar slot alike: the slot that is
/// named, if there is one, and nothing else changes.
pub proof fn law_hotbar_slots_are_selected<F, I>(
    before: ClientState<F, I>,
    after: ClientState<F, I>,
    slot: u8,
    received_at: I,
)
    ensures
        captured(before, after, GamePacket::SetHeldSlot { slot: slot as usize }, received_at) ==> {
            &&& slot < 9 ==> after.hud.selected_hotbar_slot == slot
            &&& slot >= 9 ==> after.hud.selected_hotbar_slot == before.hud.selected_hotbar_slot
            &&& after.hud.slots == before.hud.slots
            &&& after.hud == hud_noted(before.hud, PlayerAction::SelectHotbarSlot(slot))
        },
        forall|action: PlayerAction|
            !(action is SelectHotbarSlot) ==> #[trigger] hud_noted(before.hud, action)
                == before.hud,
{
}

/// A known air supply is shown as it is, with whether the eyes are under water;
/// an unknown one changes nothing.
pub proof fn law_air_is_kept(hud: HudSnapshot, air: i32, underwater: bool)
    ensures
        hud_breathing(hud, Some(air), underwater).air_supply == Some(air),
        hud_breathing(hud, Some(air), underwater).underwater == underwater,
        hud_breathing(hud, Some(air), underwater).slots == hud.slots,
        hud_breathing(hud, Some(air), underwater).health == hud.health,
        hud_breathing(hud, None, underwater) == hud,
{
}

/// A time packet sets the clock by its first Overworld clock, whatever the
/// clocks before it show. Without one it sets an unknown clock by the time of
/// the game. In either case the light of every position stays.
pub proof fn law_overworld_clock_is_taken<F, I>(
    before: ClientState<F, I>,
    after: ClientState<F, I>,
    clocks: &[ClockUpdate<F>],
    game_time: u64,
    no_partial_tick: F,
    normal_rate: F,
    received_at: I,
    first: int,
    p: BlockPos,
)
    requires
        captured(
            before,
            after,
            GamePacket::SetTime { clocks, game_time, no_partial_tick, normal_rate },
            received_at,
        ),
        0 <= first <= clocks@.len(),
        forall|i: int| 0 <= i < first ==> !(#[trigger] clocks@[i]).overworld,
    ensures
        first < clocks@.len() && clocks@[first].overworld ==> after.lighting.clock() == Some(
            ClockAnchor { time: clocks@[first].time, received_at },
        ),
        first == clocks@.len() && before.lighting.clock() is None ==> {
            &&& after.lighting.clock() matches Some(anchor) && anchor.time.total_ticks == game_time
                && anchor.time.rate == normal_rate && anchor.time.partial_tick == no_partial_tick
                && anchor.received_at == received_at
        },
        after.lighting.light(p) == before.lighting.light(p),
{
    lemma_first_overworld(clocks@, first);
    let cx = section_of(p.x as int) as i32;
    let cz = section_of(p.z as int) as i32;
    let cy = section_of(p.y as int);
    assert(after.lighting.same_light_in(before.lighting, cx, cz));
    assert(after.lighting.sky(cx, cz, cy) == before.lighting.sky(cx, cz, cy));
}

proof fn lemma_first_overworld<F>(clocks: Seq<ClockUpdate<F>>, first: int)
    requires
        0 <= first <= clocks.len(),
        forall|i: int| 0 <= i < first ==> !(#[trigger] clocks[i]).overworld,
    ensures
        first == clocks.len() ==> overworld_time(clocks) is None,
        first < clocks.len() && clocks[first].overworld ==> overworld_time(clocks) == Some(
            clocks[first].time,
        ),
    decreases first,
{
    if first > 0 {
        assert(!clocks[0].overworld);
        let rest = clocks.skip(1);
        assert forall|i: int| 0 <= i < first - 1 implies !(#[trigger] rest[i]).overworld by {
            assert(rest[i] == clocks[i + 1]);
        }
        lemma_first_overworld(rest, first - 1);
    }
}

/// Of several changes of one position in a packet the last one is shown, and
/// its light is unknown until it arrives; positions that are not changed show
/// and are lit as before.
pub proof fn law_last_change_is_shown<F, I>(
    before: ClientState<F, I>,
    after: ClientState<F, I>,
    changes: &[BlockChange],
    received_at: I,
    last: int,
    p: BlockPos,
    streamed_id: Option<&'static str>,
)
    requires
        captured(before, after, GamePacket::SectionBlocksUpdate(changes), received_at),
        -1 <= last < changes@.len(),
        last >= 0 ==> changes@[last].position == p,
        forall|i: int| last < i < changes@.len() ==> (#[trigger] changes@[i]).position != p,
    ensures
        last >= 0 ==> {
            let id = changes@[last].id;
            &&& if id@ == "air"@ || id@ == "cave_air"@ || id@ == "void_air"@ {
                shown_at(after, p, streamed_id) == Voxel::Air
            } else {
                shown_at(after, p, streamed_id) == Voxel::Solid(Block { id })
            }
            &&& after.lighting.light(p) is None
        },
        last == -1 ==> shown_at(after, p, streamed_id) == shown_at(before, p, streamed_id)
            && after.lighting.light(p) == before.lighting.light(p),
{
    lemma_last_change(changes@, p, last, changes@.len());
    let cx = section_of(p.x as int) as i32;
    let cz = section_of(p.z as int) as i32;
    let cy = section_of(p.y as int);
    assert(after.lighting.sky(cx, cz, cy) == before.lighting.sky(cx, cz, cy));
    assert(after.lighting.block(cx, cz, cy) == before.lighting.block(cx, cz, cy));
    assert(after.lighting.is_stale(p) == (before.lighting.is_stale(p) || last_change(
        changes@,
        p,
        changes@.len(),
    ) is Some));
    assert(after.overrides.at(p) == (match last_change(changes@, p, changes@.len()) {
        Some(change) => Some(override_of(change.id)),
        None => before.overrides.at(p),
    }));
}

proof fn lemma_last_change(changes: Seq<BlockChange>, p: BlockPos, last: int, n: nat)
    requires
        -1 <= last < n <= changes.len() || (last == -1 && n == 0),
        last >= 0 ==> changes[last].position == p,
        forall|i: int| last < i < n ==> (#[trigger] changes[i]).position != p,
    ensures
        last >= 0 ==> last_change(changes, p, n) == Some(changes[last]),
        last == -1 ==> last_change(changes, p, n) is None,
    decreases n,
{
    if n > 0 && last < n - 1 {
        assert(changes[n - 1].position != p);
        lemma_last_change(changes, p, last, (n - 1) as nat);
    }
}

/// A single changed block is shown as itself, or as nothing if it became air.
pub proof fn law_changed_block_is_shown<F, I>(
    before: ClientState<F, I>,
    after: ClientState<F, I>,
    change: BlockChange,
    received_at: I,
    streamed_id: Option<&'static str>,
)
    requires
        captured(before, after, GamePacket::BlockUpdate(change), received_at),
    ensures
        ({
            let shown = shown_at(after, change.position, streamed_id);
            if change.id@ == "air"@ || change.id@ == "cave_air"@ || change.id@ == "void_air"@ {
                shown == Voxel::Air
            } else {
                shown == Voxel::Solid(Block { id: change.id })
            }
        }),
        after.lighting.light(change.position) is None,
{
    reveal_with_fuel(last_change, 2);
    assert(after.lighting.is_stale(change.position) == (before.lighting.is_stale(change.position)
        || last_change(seq![change], change.position, 1) is Some));
}

/// Light packets are taken only where the bottom of the world is known; then
/// the light is what the packet brings. A light packet alone keeps the updates
/// of blocks, and a whole chunk drops those of that chunk.
pub proof fn law_light_needs_the_bottom_of_the_world<F, I>(
    before: ClientState<F, I>,
    after: ClientState<F, I>,
    x: i32,
    z: i32,
    min_y: Option<i32>,
    light: PacketLightData<'_>,
    received_at: I,
    p: BlockPos,
)
    ensures
        captured(before, after, GamePacket::LightUpdate { x, z, min_y, light }, received_at)
            ==> {
            &&& min_y is None ==> after.lighting == before.lighting
            &&& min_y matches Some(bottom) ==> before.lighting.packet_applied(
                after.lighting,
                x,
                z,
                bottom,
                light,
            )
            &&& after.overrides == before.overrides
        },
        captured(
            before,
            after,
            GamePacket::LevelChunkWithLight { x, z, min_y, light },
            received_at,
        ) ==> {
            &&& min_y is None ==> after.lighting == before.lighting
            &&& min_y matches Some(bottom) ==> before.lighting.packet_applied(
                after.lighting,
                x,
                z,
                bottom,
                light,
            )
            &&& 16 * x <= p.x < 16 * x + 16 && 16 * z <= p.z < 16 * z + 16 ==> after.overrides.at(
                p,
            ) is None
            &&& !(16 * x <= p.x < 16 * x + 16 && 16 * z <= p.z < 16 * z + 16)
                ==> after.overrides.at(p) == before.overrides.at(p)
        },
{
    law_chunks_are_columns(p, x, z);
}

/// The diagnostic modes report twice a second, five times a second and four
/// times a second, each its own finding; entities are captured four times a
/// second while they are drawn. There are twenty ticks in a second.
pub proof fn law_reports_keep_their_pace(mode: Mode, render_entities: bool, ticks: nat, k: nat)
    ensures
        ({
            let plan = tick_plan(mode, render_entities, ticks as int);
            &&& plan.report == TickReport::Position ==> mode == Mode::Monitor
            &&& plan.report == TickReport::Minimap ==> mode == Mode::Minimap
            &&& plan.report == TickReport::ForwardRay ==> mode == Mode::Ray
            &&& plan.refresh_entities ==> mode == Mode::Render && render_entities
            &&& mode == Mode::Monitor ==> (plan.report == TickReport::Position <==> ticks % 10 == 0)
            &&& mode == Mode::Minimap ==> (plan.report == TickReport::Minimap <==> ticks % 4 == 0)
            &&& mode == Mode::Ray ==> (plan.report == TickReport::ForwardRay <==> ticks % 5 == 0)
            &&& mode == Mode::Render && render_entities ==> (plan.refresh_entities <==> ticks % 5
                == 0)
        }),
        tick_plan(mode, render_entities, (ticks + 20 * k) as int) == tick_plan(
            mode,
            render_entities,
            ticks as int,
        ),
{
}

/// Each event is answered in its own way: the connection by a request for as
/// many chunks as are configured, the login and the spawn by their
/// announcements, chat by printing it, and a tick by its plan. Only packets, the
/// login and the first spawn change what is kept.
pub proof fn law_events_are_answered<F, I>(
    before: ClientState<F, I>,
    after: ClientState<F, I>,
    settings: SessionSettings,
    event: ClientEvent<'_, F>,
    received_at: I,
    action: ClientAction,
)
    requires
        event_handled(before, after, settings, event, received_at, action),
    ensures
        match event {
            ClientEvent::Init => action == (ClientAction::RequestChunks {
                view_distance: settings.view_distance,
            }),
            ClientEvent::Login => action == ClientAction::AnnounceLogin,
            ClientEvent::Spawn => action == (ClientAction::AnnounceSpawn {
                start_renderer: settings.mode == Mode::Render && !before.renderer_started,
            }),
            ClientEvent::Packet(packet) => action == ClientAction::Nothing && captured(
                before,
                after,
                packet,
                received_at,
            ),
            ClientEvent::Chat => action == ClientAction::PrintChat,
            ClientEvent::Tick { ticks_connected } => action == ClientAction::Tick(
                tick_plan(settings.mode, settings.render_entities, ticks_connected as int),
            ),
            ClientEvent::Disconnect => action == ClientAction::ReportDisconnect,
            ClientEvent::ConnectionFailed => action == ClientAction::ReportConnectionFailure,
            ClientEvent::Other => action == ClientAction::Nothing,
        },
        !(event is Packet || event is Login || event is Spawn) ==> after == before,
        event is Spawn ==> after.lighting == before.lighting && after.hud == before.hud
            && after.overrides == before.overrides && (after.renderer_started
            <==> before.renderer_started || settings.mode == Mode::Render),
{
}

/// After a login nothing is known of the player either, and the hotbar is
/// empty; only whether the renderer runs is kept.
pub proof fn law_login_resets_the_player<F, I>(
    before: ClientState<F, I>,
    after: ClientState<F, I>,
    settings: SessionSettings,
    received_at: I,
    action: ClientAction,
    slot: int,
)
    requires
        after.wf(),
        event_handled(before, after, settings, ClientEvent::<F>::Login, received_at, action),
        0 <= slot < 46,
    ensures
        after.hud.health is None && after.hud.food is None,
        after.hud.experience_level is None && after.hud.experience_progress is None,
        after.hud.selected_hotbar_slot == 0,
        after.hud.slots@[slot]@.item is None && after.hud.slots@[slot]@.count == 0,
        after.hud.carried@.item is None,
        after.hud.air_supply is None && !after.hud.underwater,
        after.renderer_started == before.renderer_started,
{
    assert(after.hud.slot(slot) == after.hud.slots@[slot]@);
}

/// Every packet can be captured that brings no light, or brings it before the
/// bottom of the world is known.
pub proof fn law_packets_can_be_captured<F>(packet: GamePacket<'_, F>)
    ensures
        match packet {
            GamePacket::LightUpdate { min_y, .. } => min_y is None ==> capturable(packet),
            GamePacket::LevelChunkWithLight { min_y, .. } => min_y is None ==> capturable(packet),
            _ => capturable(packet),
        },
{
}

} // verus!
