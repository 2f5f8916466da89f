//! What the keyboard does: walking, looking, acting on blocks, and the
//! inventory overlay.
use vstd::prelude::*;

use crate::grid::BlockPos;

verus! {

/// How far one press of an arrow key turns the view, in degrees.
pub const LOOK_STEP_DEGREES: i32 = 6;

/// The keys that the client distinguishes.
#[derive(Clone, Copy, Debug, PartialEq, Eq, Structural)]
pub enum KeyCode {
    Char(char),
    Left,
    Right,
    Up,
    Down,
    Tab,
    BackTab,
    Enter,
    Esc,
    Other,
}

/// What happened to a key.
#[derive(Clone, Copy, Debug, PartialEq, Eq, Structural)]
pub enum KeyEventKind {
    Press,
    Repeat,
    Release,
}

/// A keyboard event.
#[derive(Clone, Copy, Debug, PartialEq, Eq, Structural)]
pub struct KeyEvent {
    pub code: KeyCode,
    pub kind: KeyEventKind,
    /// Whether Shift is held.
    pub shift: bool,
}

/// The directions in which a key makes the player walk.
#[derive(Clone, Copy, Debug, PartialEq, Eq, Structural)]
pub enum WalkDirection {
    Stop,
    Forward,
    Backward,
    Left,
    Right,
}

/// The mouse button that an inventory key stands for.
#[derive(Clone, Copy, Debug, PartialEq, Eq, Structural)]
pub enum InventoryButton {
    Left,
    Right,
    QuickMove,
}

/// Commands produced by terminal input and executed from the client's event
/// loop.
#[derive(Clone, Copy, Debug, PartialEq, Eq, Structural)]
pub enum PlayerAction {
    StartMining(BlockPos),
    UseTargetedBlock(BlockPos),
    SelectHotbarSlot(u8),
    InventoryClick { slot: usize, button: InventoryButton },
}

/// What is to be done about a keyboard event.
#[derive(Clone, Copy, Debug, PartialEq, Eq, Structural)]
pub enum InputAction {
    Nothing,
    Quit,
    Jump,
    Walk(WalkDirection),
    SprintForward,
    ToggleCrouch,
    /// Turn by the given degrees.
    Look { yaw: i32, pitch: i32 },
    Queue(PlayerAction),
}

/// The inventory overlay: whether it is open, and the cursor. The cursor is on
/// a cell of the storage grid, or on one of the special slots.
#[derive(Clone, Copy, Debug, PartialEq, Eq, Structural)]
pub struct InventoryUi {
    pub open: bool,
    pub row: usize,
    pub column: usize,
    pub special_slot: Option<usize>,
}

/// The special slots in cycling order: crafting and armor, then the offhand.
pub open spec fn special_slot_at(index: int) -> int {
    if index < 9 {
        index
    } else {
        45
    }
}

/// The place of a special slot in the cycling order.
pub open spec fn special_index(slot: int) -> Option<int> {
    if 0 <= slot < 9 {
        Some(slot)
    } else if slot == 45 {
        Some(9int)
    } else {
        None
    }
}

/// Whether the cursor of an overlay is on a slot.
pub open spec fn cursor_fits(ui: InventoryUi) -> bool {
    &&& ui.row < 4
    &&& ui.column < 9
    &&& ui.special_slot is Some ==> special_index(ui.special_slot->0 as int) is Some
}

/// The player-menu slot under the cursor: storage starts at slot nine.
pub open spec fn slot_under(ui: InventoryUi) -> int {
    match ui.special_slot {
        Some(slot) => slot as int,
        None => 9 + ui.row * 9 + ui.column,
    }
}

/// The overlay after the cursor moved over the storage grid, which wraps
/// around in both directions.
pub open spec fn moved(ui: InventoryUi, rows: int, columns: int) -> InventoryUi {
    InventoryUi {
        row: ((ui.row + rows) % 4) as usize,
        column: ((ui.column + columns) % 9) as usize,
        special_slot: None,
        ..ui
    }
}

/// The overlay after the cursor moved along the special slots. From the
/// storage grid it enters them at the end that the direction comes from.
pub open spec fn cycled(ui: InventoryUi, direction: int) -> InventoryUi {
    let index = match ui.special_slot {
        Some(slot) => special_index(slot as int),
        None => None,
    };
    let next = match index {
        Some(index) => (index + direction) % 10,
        None => if direction < 0 {
            9int
        } else {
            0int
        },
    };
    InventoryUi { special_slot: Some(special_slot_at(next) as usize), ..ui }
}

impl InventoryUi {
    /// The player-menu slot under the cursor.
    pub fn selected_slot(self) -> (slot: usize)
        requires
            slot_under(self) <= usize::MAX,
        ensures
            slot == slot_under(self),
    {
        match self.special_slot {
            Some(slot) => slot,
            None => 9 + self.row * 9 + self.column,
        }
    }

    /// Moves the cursor over the storage grid.
    pub fn move_by(&mut self, row_delta: isize, column_delta: isize)
        requires
            old(self).row <= isize::MAX,
            old(self).column <= isize::MAX,
            old(self).row + row_delta <= isize::MAX,
            old(self).column + column_delta <= isize::MAX,
        ensures
            cursor_fits(*final(self)),
            *final(self) == moved(*old(self), row_delta as int, column_delta as int),
    {
        self.special_slot = None;
        self.row = (self.row as isize + row_delta).checked_rem_euclid(4).unwrap() as usize;
        self.column = (self.column as isize + column_delta).checked_rem_euclid(9).unwrap() as usize;
    }

    /// Moves the cursor along the special slots.
    pub fn cycle_special_slot(&mut self, direction: isize)
        requires
            old(self).special_slot matches Some(slot) ==> (special_index(slot as int) matches Some(
                index,
            ) ==> index + direction <= isize::MAX),
        ensures
            *final(self) == cycled(*old(self), direction as int),
            cursor_fits(*old(self)) ==> cursor_fits(*final(self)),
    {
        let place: Option<isize> = match self.special_slot {
            Some(slot) => if slot < 9 {
                Some(slot as isize)
            } else if slot == 45 {
                Some(9)
            } else {
                None
            },
            None => None,
        };
        let index: usize = match place {
            Some(place) => (place + direction).checked_rem_euclid(10).unwrap() as usize,
            None => if direction < 0 {
                9
            } else {
                0
            },
        };
        self.special_slot = Some(
            if index < 9 {
                index
            } else {
                45
            },
        );
    }
}

impl Default for InventoryUi {
    fn default() -> (ui: Self)
        ensures
            ui == (InventoryUi { open: false, row: 0, column: 0, special_slot: None }),
            cursor_fits(ui),
    {
        InventoryUi { open: false, row: 0, column: 0, special_slot: None }
    }
}

/// The walking direction of a movement key.
pub open spec fn walk_of(key: KeyCode) -> Option<WalkDirection> {
    match key {
        KeyCode::Char('w') => Some(WalkDirection::Forward),
        KeyCode::Char('a') => Some(WalkDirection::Left),
        KeyCode::Char('s') => Some(WalkDirection::Backward),
        KeyCode::Char('d') => Some(WalkDirection::Right),
        _ => None,
    }
}

/// The walking direction that an event asks for. With Shift held, terminals
/// report the forward key as a capital letter, unless they speak the enhanced
/// keyboard protocol.
pub open spec fn walk_asked(key: KeyEvent) -> Option<WalkDirection> {
    if key.shift && key.code == KeyCode::Char('W') {
        Some(WalkDirection::Forward)
    } else {
        walk_of(key.code)
    }
}

/// How far a key turns the view: yaw and pitch in degrees. Negative pitch
/// looks up.
pub open spec fn turn_of(key: KeyCode) -> Option<(i32, i32)> {
    match key {
        KeyCode::Left => Some((-6i32, 0i32)),
        KeyCode::Right => Some((6i32, 0i32)),
        KeyCode::Up => Some((0i32, -6i32)),
        KeyCode::Down => Some((0i32, 6i32)),
        _ => None,
    }
}

/// The action on the targeted block, if there is one.
pub open spec fn on_target(target: Option<BlockPos>, mine: bool) -> InputAction {
    match target {
        Some(position) => InputAction::Queue(
            if mine {
                PlayerAction::StartMining(position)
            } else {
                PlayerAction::UseTargetedBlock(position)
            },
        ),
        None => InputAction::Nothing,
    }
}

/// What a pressed key does while the inventory is closed.
pub open spec fn world_key(ui: InventoryUi, target: Option<BlockPos>, key: KeyEvent) -> (
    InventoryUi,
    InputAction,
) {
    if walk_asked(key) is Some {
        let walk = walk_asked(key)->0;
        (ui, if key.shift && walk == WalkDirection::Forward {
            InputAction::SprintForward
        } else {
            InputAction::Walk(walk)
        })
    } else if turn_of(key.code) is Some {
        let (yaw, pitch) = turn_of(key.code)->0;
        (ui, InputAction::Look { yaw, pitch })
    } else {
        match key.code {
            KeyCode::Char(' ') => (ui, InputAction::Jump),
            KeyCode::Char('x') => (ui, InputAction::Walk(WalkDirection::Stop)),
            KeyCode::Char('e') => (InventoryUi { open: true, ..ui }, InputAction::Nothing),
            KeyCode::Char('f') => (ui, on_target(target, true)),
            KeyCode::Char('g') => (ui, on_target(target, false)),
            KeyCode::Char('c') => (ui, InputAction::ToggleCrouch),
            KeyCode::Char('q') => (ui, InputAction::Quit),
            KeyCode::Esc => (ui, InputAction::Quit),
            KeyCode::Char(c) => if '1' <= c && c <= '9' {
                (ui, InputAction::Queue(PlayerAction::SelectHotbarSlot((c as u8 - 49) as u8)))
            } else {
                (ui, InputAction::Nothing)
            },
            _ => (ui, InputAction::Nothing),
        }
    }
}

/// A click on the slot under the cursor.
pub open spec fn click(ui: InventoryUi, button: InventoryButton) -> InputAction {
    InputAction::Queue(PlayerAction::InventoryClick { slot: slot_under(ui) as usize, button })
}

/// What a pressed key does while the inventory is open.
pub open spec fn inventory_key(ui: InventoryUi, key: KeyEvent) -> (InventoryUi, InputAction) {
    match key.code {
        KeyCode::Esc => (InventoryUi { open: false, ..ui }, InputAction::Nothing),
        KeyCode::Char('e') => (InventoryUi { open: false, ..ui }, InputAction::Nothing),
        KeyCode::Left => (moved(ui, 0, -1), InputAction::Nothing),
        KeyCode::Right => (moved(ui, 0, 1), InputAction::Nothing),
        KeyCode::Up => (moved(ui, -1, 0), InputAction::Nothing),
        KeyCode::Down => (moved(ui, 1, 0), InputAction::Nothing),
        KeyCode::Tab => (cycled(ui, 1), InputAction::Nothing),
        KeyCode::BackTab => (cycled(ui, -1), InputAction::Nothing),
        KeyCode::Enter => (ui, click(ui, if key.shift {
            InventoryButton::QuickMove
        } else {
            InventoryButton::Left
        })),
        KeyCode::Char('r') => (ui, click(ui, InventoryButton::Right)),
        KeyCode::Char('q') => (ui, InputAction::Quit),
        _ => (ui, InputAction::Nothing),
    }
}

/// What a keyboard event does. Most terminal emulators do not report key
/// releases; where one does, releasing a movement key stops the walk.
pub open spec fn key_effect(ui: InventoryUi, target: Option<BlockPos>, key: KeyEvent) -> (
    InventoryUi,
    InputAction,
) {
    if key.kind == KeyEventKind::Release {
        (ui, if !ui.open && walk_asked(key) is Some {
            InputAction::Walk(WalkDirection::Stop)
        } else {
            InputAction::Nothing
        })
    } else if ui.open {
        inventory_key(ui, key)
    } else {
        world_key(ui, target, key)
    }
}

/// The walking direction of a movement key.
pub fn movement_for_key(key: KeyCode) -> (walk: Option<WalkDirection>)
    ensures
        walk == walk_of(key),
{
    match key {
        KeyCode::Char('w') => Some(WalkDirection::Forward),
        KeyCode::Char('a') => Some(WalkDirection::Left),
        KeyCode::Char('s') => Some(WalkDirection::Backward),
        KeyCode::Char('d') => Some(WalkDirection::Right),
        _ => None,
    }
}

/// The walking direction that an event asks for.
fn movement_for_event(key: KeyEvent) -> (walk: Option<WalkDirection>)
    ensures
        walk == walk_asked(key),
{
    match key.code {
        KeyCode::Char('W') => if key.shift {
            Some(WalkDirection::Forward)
        } else {
            None
        },
        code => movement_for_key(code),
    }
}

/// How far a key turns the view: yaw and pitch in degrees.
pub fn look_angles_after_key(key: KeyCode) -> (turn: Option<(i32, i32)>)
    ensures
        turn == turn_of(key),
{
    match key {
        KeyCode::Left => Some((-LOOK_STEP_DEGREES, 0)),
        KeyCode::Right => Some((LOOK_STEP_DEGREES, 0)),
        KeyCode::Up => Some((0, -LOOK_STEP_DEGREES)),
        KeyCode::Down => Some((0, LOOK_STEP_DEGREES)),
        _ => None,
    }
}

/// What a pressed key does while the inventory is open.
fn apply_inventory_key(ui: &mut InventoryUi, key: KeyEvent) -> (action: InputAction)
    requires
        cursor_fits(*old(ui)),
    ensures
        cursor_fits(*final(ui)),
        (*final(ui), action) == inventory_key(*old(ui), key),
{
    match key.code {
        KeyCode::Esc | KeyCode::Char('e') => {
            ui.open = false;
        },
        KeyCode::Left => ui.move_by(0, -1),
        KeyCode::Right => ui.move_by(0, 1),
        KeyCode::Up => ui.move_by(-1, 0),
        KeyCode::Down => ui.move_by(1, 0),
        KeyCode::Tab => ui.cycle_special_slot(1),
        KeyCode::BackTab => ui.cycle_special_slot(-1),
        KeyCode::Enter => {
            let button = if key.shift {
                InventoryButton::QuickMove
            } else {
                InventoryButton::Left
            };
            return InputAction::Queue(
                PlayerAction::InventoryClick { slot: ui.selected_slot(), button },
            );
        },
        KeyCode::Char('r') => {
            return InputAction::Queue(
                PlayerAction::InventoryClick {
                    slot: ui.selected_slot(),
                    button: InventoryButton::Right,
                },
            );
        },
        KeyCode::Char('q') => {
            return InputAction::Quit;
        },
        _ => {},
    }
    InputAction::Nothing
}

/// Decides what a keyboard event does, and updates the overlay.
pub fn apply_key(ui: &mut InventoryUi, interaction_target: Option<BlockPos>, key: KeyEvent) -> (action:
    InputAction)
    requires
        cursor_fits(*old(ui)),
    ensures
        cursor_fits(*final(ui)),
        (*final(ui), action) == key_effect(*old(ui), interaction_target, key),
{
    if key.kind == KeyEventKind::Release {
        return if !ui.open && movement_for_event(key).is_some() {
            InputAction::Walk(WalkDirection::Stop)
        } else {
            InputAction::Nothing
        };
    }
    if ui.open {
        return apply_inventory_key(ui, key);
    }
    match movement_for_event(key) {
        Some(walk) => {
            return if key.shift && walk == WalkDirection::Forward {
                InputAction::SprintForward
            } else {
                InputAction::Walk(walk)
            };
        },
        None => {},
    }
    match look_angles_after_key(key.code) {
        Some((yaw, pitch)) => {
            return InputAction::Look { yaw, pitch };
        },
        None => {},
    }
    match key.code {
        KeyCode::Char(' ') => InputAction::Jump,
        KeyCode::Char('x') => InputAction::Walk(WalkDirection::Stop),
        KeyCode::Char('e') => {
            ui.open = true;
            InputAction::Nothing
        },
        KeyCode::Char('f') => match interaction_target {
            Some(position) => InputAction::Queue(PlayerAction::StartMining(position)),
            None => InputAction::Nothing,
        },
        KeyCode::Char('g') => match interaction_target {
            Some(position) => InputAction::Queue(PlayerAction::UseTargetedBlock(position)),
            None => InputAction::Nothing,
        },
        KeyCode::Char('c') => InputAction::ToggleCrouch,
        KeyCode::Char('q') => InputAction::Quit,
        KeyCode::Esc => InputAction::Quit,
        KeyCode::Char(c) => {
            if '1' <= c && c <= '9' {
                InputAction::Queue(PlayerAction::SelectHotbarSlot(c as u8 - 49))
            } else {
                InputAction::Nothing
            }
        },
        _ => InputAction::Nothing,
    }
}

/// The cursor is always on a slot of the player menu: on the storage grid or
/// the hotbar while it is not on a special slot.
pub proof fn law_cursor_is_on_a_slot(ui: InventoryUi)
    requires
        cursor_fits(ui),
    ensures
        0 <= slot_under(ui) < 46,
        ui.special_slot is None ==> 9 <= slot_under(ui) <= 44,
{
}

/// Every storage and hotbar slot is under exactly one place of the grid.
pub proof fn law_grid_covers_storage(slot: int)
    requires
        9 <= slot <= 44,
    ensures
        ({
            let ui = InventoryUi {
                open: true,
                row: ((slot - 9) / 9) as usize,
                column: ((slot - 9) % 9) as usize,
                special_slot: None,
            };
            &&& cursor_fits(ui)
            &&& slot_under(ui) == slot
        }),
        forall|other: InventoryUi|
            cursor_fits(other) && other.special_slot is None && #[trigger] slot_under(other) == slot
                ==> other.row == (slot - 9) / 9 && other.column == (slot - 9) % 9,
{
}

/// Moving the cursor and moving it back returns to the same storage slot.
pub proof fn law_moves_cancel(ui: InventoryUi, rows: int, columns: int)
    requires
        cursor_fits(ui),
    ensures
        ({
            let back = moved(moved(ui, rows, columns), -rows, -columns);
            back.row == ui.row && back.column == ui.column && back.special_slot is None
        }),
{
    assert(((ui.row + rows) % 4 - rows) % 4 == ui.row);
    assert(((ui.column + columns) % 9 - columns) % 9 == ui.column);
}

/// Four steps down or nine to the right return to where the cursor was.
pub proof fn law_grid_wraps(ui: InventoryUi, rows: int, columns: int)
    requires
        cursor_fits(ui),
    ensures
        moved(ui, rows + 4, columns + 9) == moved(ui, rows, columns),
{
}

/// Cycling along the special slots and back returns to the same slot.
pub proof fn law_cycles_cancel(ui: InventoryUi, direction: int)
    requires
        cursor_fits(ui),
        ui.special_slot is Some,
    ensures
        cycled(cycled(ui, direction), -direction) == ui,
{
    let index = special_index(ui.special_slot->0 as int)->0;
    let next = (index + direction) % 10;
    assert(special_index(special_slot_at(next)) == Some(next));
    assert((next - direction) % 10 == index);
}

/// Releasing a key changes nothing of the overlay and queues no action.
pub proof fn law_releases_only_stop(ui: InventoryUi, target: Option<BlockPos>, key: KeyEvent)
    requires
        key.kind == KeyEventKind::Release,
    ensures
        key_effect(ui, target, key).0 == ui,
        key_effect(ui, target, key).1 == InputAction::Nothing || key_effect(ui, target, key).1
            == InputAction::Walk(WalkDirection::Stop),
{
}

/// Shift and the forward key sprint while the inventory is closed, however the
/// terminal reports the letter, and nothing else does. Releasing them stops.
pub proof fn law_sprinting(ui: InventoryUi, target: Option<BlockPos>, key: KeyEvent)
    ensures
        key_effect(ui, target, key).1 == InputAction::SprintForward <==> !ui.open && key.shift && (
        key.code == KeyCode::Char('w') || key.code == KeyCode::Char('W')) && key.kind
            != KeyEventKind::Release,
        !ui.open && key.shift && (key.code == KeyCode::Char('w') || key.code == KeyCode::Char('W'))
            && key.kind == KeyEventKind::Release ==> key_effect(ui, target, key).1
            == InputAction::Walk(WalkDirection::Stop),
{
}

/// Escape closes an open inventory and quits otherwise; no event but a press
/// or repeat of `q` or Escape quits.
pub proof fn law_quitting(ui: InventoryUi, target: Option<BlockPos>, key: KeyEvent)
    ensures
        key_effect(ui, target, key).1 == InputAction::Quit <==> key.kind != KeyEventKind::Release
            && (key.code == KeyCode::Char('q') || (key.code == KeyCode::Esc && !ui.open)),
        ui.open && key.code == KeyCode::Esc && key.kind != KeyEventKind::Release
            ==> !key_effect(ui, target, key).0.open,
{
}

/// Blocks are acted upon only while one is targeted and the inventory is
/// closed, and then it is the targeted one.
pub proof fn law_actions_need_a_target(ui: InventoryUi, target: Option<BlockPos>, key: KeyEvent)
    ensures
        match key_effect(ui, target, key).1 {
            InputAction::Queue(PlayerAction::StartMining(position)) => !ui.open && target == Some(
                position,
            ),
            InputAction::Queue(PlayerAction::UseTargetedBlock(position)) => !ui.open && target
                == Some(position),
            InputAction::Queue(PlayerAction::SelectHotbarSlot(slot)) => !ui.open && slot < 9,
            InputAction::Queue(PlayerAction::InventoryClick { .. }) => ui.open,
            _ => true,
        },
{
}

/// The arrow keys move the cursor over the open inventory as they point: Up
/// selects the slot nine lower in number and Down the one nine higher, Left
/// and Right the one before and after in the row. At an edge the cursor comes
/// back at the opposite one.
pub proof fn law_arrows_move_the_cursor(
    ui: InventoryUi,
    target: Option<BlockPos>,
    key: KeyEvent,
)
    requires
        ui.open,
        cursor_fits(ui),
        key.kind != KeyEventKind::Release,
        key.code == KeyCode::Up || key.code == KeyCode::Down || key.code == KeyCode::Left
            || key.code == KeyCode::Right,
    ensures
        ({
            let (after, action) = key_effect(ui, target, key);
            let grid_slot = 9 + 9 * ui.row + ui.column;
            &&& action == InputAction::Nothing
            &&& after.open && after.special_slot is None
            &&& key.code == KeyCode::Up && ui.row > 0 ==> slot_under(after) == grid_slot - 9
            &&& key.code == KeyCode::Up && ui.row == 0 ==> slot_under(after) == grid_slot + 27
            &&& key.code == KeyCode::Down && ui.row < 3 ==> slot_under(after) == grid_slot + 9
            &&& key.code == KeyCode::Down && ui.row == 3 ==> slot_under(after) == grid_slot - 27
            &&& key.code == KeyCode::Left && ui.column > 0 ==> slot_under(after) == grid_slot - 1
            &&& key.code == KeyCode::Left && ui.column == 0 ==> slot_under(after) == grid_slot + 8
            &&& key.code == KeyCode::Right && ui.column < 8 ==> slot_under(after) == grid_slot + 1
            &&& key.code == KeyCode::Right && ui.column == 8 ==> slot_under(after) == grid_slot - 8
        }),
{
}

/// In the open inventory Up and Down undo each other, as do Left and Right: a
/// press of the one and then of the other returns to the same storage slot.
pub proof fn law_opposite_arrows_cancel(
    ui: InventoryUi,
    target: Option<BlockPos>,
    there: KeyEvent,
    back: KeyEvent,
)
    requires
        ui.open,
        cursor_fits(ui),
        there.kind != KeyEventKind::Release,
        back.kind != KeyEventKind::Release,
        (there.code == KeyCode::Up && back.code == KeyCode::Down) || (there.code == KeyCode::Down
            && back.code == KeyCode::Up) || (there.code == KeyCode::Left && back.code
            == KeyCode::Right) || (there.code == KeyCode::Right && back.code == KeyCode::Left),
    ensures
        ({
            let after = key_effect(key_effect(ui, target, there).0, target, back).0;
            &&& after.row == ui.row
            &&& after.column == ui.column
            &&& after.special_slot is None
        }),
{
}

/// Tab steps through the special slots in the order of their numbers, from the
/// last back to the first, and Shift with Tab steps the other way. From the
/// storage grid the cursor enters at the first and at the last one.
pub proof fn law_tab_steps_through_special_slots(
    ui: InventoryUi,
    target: Option<BlockPos>,
    key: KeyEvent,
)
    requires
        ui.open,
        cursor_fits(ui),
        key.kind != KeyEventKind::Release,
    ensures
        ({
            let (after, action) = key_effect(ui, target, key);
            &&& key.code == KeyCode::Tab ==> action == InputAction::Nothing && after.row == ui.row
                && after.column == ui.column && match ui.special_slot {
                None => slot_under(after) == 0,
                Some(slot) => if slot < 8 {
                    slot_under(after) == slot + 1
                } else if slot == 8 {
                    slot_under(after) == 45
                } else {
                    slot_under(after) == 0
                },
            }
            &&& key.code == KeyCode::BackTab ==> action == InputAction::Nothing && after.row
                == ui.row && after.column == ui.column && match ui.special_slot {
                None => slot_under(after) == 45,
                Some(slot) => if slot == 0 {
                    slot_under(after) == 45
                } else if slot <= 8 {
                    slot_under(after) == slot - 1
                } else {
                    slot_under(after) == 8
                },
            }
        }),
{
}

/// In the open inventory Enter clicks the slot under the cursor, with Shift to
/// move its stack at once, and `r` splits or places one; a click moves no
/// cursor.
pub proof fn law_clicks_are_on_the_selected_slot(
    ui: InventoryUi,
    target: Option<BlockPos>,
    key: KeyEvent,
)
    requires
        ui.open,
        cursor_fits(ui),
        key.kind != KeyEventKind::Release,
        key.code == KeyCode::Enter || key.code == KeyCode::Char('r'),
    ensures
        key_effect(ui, target, key).0 == ui,
        match key_effect(ui, target, key).1 {
            InputAction::Queue(PlayerAction::InventoryClick { slot, button }) => {
                &&& ui.special_slot matches Some(special) ==> slot == special
                &&& ui.special_slot is None ==> slot == 9 + 9 * ui.row + ui.column
                &&& button == InventoryButton::Right <==> key.code == KeyCode::Char('r')
                &&& button == InventoryButton::QuickMove <==> key.code == KeyCode::Enter
                    && key.shift
            },
            _ => false,
        },
{
}

/// `e` opens the closed inventory and closes the open one, without moving the
/// cursor, and Escape closes it too. No other key opens or closes it.
pub proof fn law_inventory_opens_and_closes(
    ui: InventoryUi,
    target: Option<BlockPos>,
    key: KeyEvent,
)
    ensures
        ({
            let (after, action) = key_effect(ui, target, key);
            &&& after.open != ui.open <==> key.kind != KeyEventKind::Release && (key.code
                == KeyCode::Char('e') || (ui.open && key.code == KeyCode::Esc))
            &&& after.open != ui.open ==> after.row == ui.row && after.column == ui.column
                && after.special_slot == ui.special_slot && action == InputAction::Nothing
            &&& !ui.open ==> after.row == ui.row && after.column == ui.column && after.special_slot
                == ui.special_slot
        }),
{
}

/// While the inventory is closed, `w`, `a`, `s` and `d` walk forward, left,
/// backward and right, and no other key walks; `x` stops, and Space jumps.
pub proof fn law_walking(ui: InventoryUi, target: Option<BlockPos>, key: KeyEvent)
    requires
        !ui.open,
        key.kind != KeyEventKind::Release,
    ensures
        ({
            let action = key_effect(ui, target, key).1;
            &&& action == InputAction::Walk(WalkDirection::Forward) <==> key.code == KeyCode::Char(
                'w',
            ) && !key.shift
            &&& action == InputAction::Walk(WalkDirection::Left) <==> key.code == KeyCode::Char('a')
            &&& action == InputAction::Walk(WalkDirection::Backward) <==> key.code == KeyCode::Char(
                's',
            )
            &&& action == InputAction::Walk(WalkDirection::Right) <==> key.code == KeyCode::Char(
                'd',
            )
            &&& action == InputAction::Walk(WalkDirection::Stop) <==> key.code == KeyCode::Char('x')
            &&& action == InputAction::Jump <==> key.code == KeyCode::Char(' ')
            &&& action == InputAction::ToggleCrouch <==> key.code == KeyCode::Char('c')
        }),
{
}

/// Releasing a key that walks stops the walk while the inventory is closed,
/// and releasing any other key does nothing.
pub proof fn law_releasing_a_walking_key_stops(
    ui: InventoryUi,
    target: Option<BlockPos>,
    key: KeyEvent,
)
    requires
        key.kind == KeyEventKind::Release,
        !key.shift,
    ensures
        key_effect(ui, target, key).1 == InputAction::Walk(WalkDirection::Stop) <==> !ui.open && (
        key.code == KeyCode::Char('w') || key.code == KeyCode::Char('a') || key.code
            == KeyCode::Char('s') || key.code == KeyCode::Char('d')),
{
}

/// The arrow keys turn the view while the inventory is closed, by six degrees
/// in one direction: Left turns to smaller yaw and Up to smaller pitch, and
/// Right and Down turn back.
pub proof fn law_arrows_turn_the_view(ui: InventoryUi, target: Option<BlockPos>, key: KeyEvent)
    requires
        !ui.open,
        key.kind != KeyEventKind::Release,
    ensures
        match key_effect(ui, target, key).1 {
            InputAction::Look { yaw, pitch } => {
                &&& key.code == KeyCode::Left ==> yaw == -6 && pitch == 0
                &&& key.code == KeyCode::Right ==> yaw == 6 && pitch == 0
                &&& key.code == KeyCode::Up ==> yaw == 0 && pitch == -6
                &&& key.code == KeyCode::Down ==> yaw == 0 && pitch == 6
                &&& key.code == KeyCode::Left || key.code == KeyCode::Right || key.code
                    == KeyCode::Up || key.code == KeyCode::Down
            },
            _ => !(key.code == KeyCode::Left || key.code == KeyCode::Right || key.code
                == KeyCode::Up || key.code == KeyCode::Down),
        },
{
}

/// While the inventory is closed the digits from one to nine select the hotbar
/// slots from left to right, `f` starts to mine the targeted block and `g` uses
/// it; without a target these two do nothing.
pub proof fn law_world_actions(ui: InventoryUi, target: Option<BlockPos>, key: KeyEvent)
    requires
        !ui.open,
        key.kind != KeyEventKind::Release,
    ensures
        ({
            let action = key_effect(ui, target, key).1;
            &&& key.code matches KeyCode::Char(c) ==> ('1' <= c && c <= '9' ==> (action matches
                InputAction::Queue(PlayerAction::SelectHotbarSlot(slot)) && slot as int + 1
                == c as int - '0' as int))
            &&& key.code == KeyCode::Char('f') ==> match target {
                Some(position) => action == InputAction::Queue(PlayerAction::StartMining(position)),
                None => action == InputAction::Nothing,
            }
            &&& key.code == KeyCode::Char('g') ==> match target {
                Some(position) => action == InputAction::Queue(
                    PlayerAction::UseTargetedBlock(position),
                ),
                None => action == InputAction::Nothing,
            }
        }),
{
}

/// Moves of the cursor over the storage grid add up: two moves lead where one
/// move of their total length leads, and a step leads to the next row or
/// column, or from the last one to the first.
pub proof fn law_moves_add_up(ui: InventoryUi, rows: int, columns: int, more_rows: int, more_columns: int)
    requires
        cursor_fits(ui),
    ensures
        moved(moved(ui, rows, columns), more_rows, more_columns) == moved(
            ui,
            rows + more_rows,
            columns + more_columns,
        ),
        ui.row < 3 ==> moved(ui, 1, 0).row == ui.row + 1,
        ui.row == 3 ==> moved(ui, 1, 0).row == 0,
        ui.column < 8 ==> moved(ui, 0, 1).column == ui.column + 1,
        ui.column == 8 ==> moved(ui, 0, 1).column == 0,
        moved(ui, 1, 0).column == ui.column,
        moved(ui, 0, 1).row == ui.row,
        moved(ui, rows, columns).open == ui.open,
        moved(ui, rows, columns).special_slot is None,
{
    lemma_remainders_add(ui.row as int, rows, more_rows, 4);
    lemma_remainders_add(ui.column as int, columns, more_columns, 9);
}

/// Moves along the special slots add up.
pub proof fn law_cycles_add_up(ui: InventoryUi, direction: int, more: int)
    requires
        cursor_fits(ui),
        ui.special_slot is Some,
    ensures
        cycled(cycled(ui, direction), more) == cycled(ui, direction + more),
        cycled(ui, direction).open == ui.open,
        cycled(ui, direction).row == ui.row,
        cycled(ui, direction).column == ui.column,
{
    let index = special_index(ui.special_slot->0 as int)->0;
    let next = (index + direction) % 10;
    assert(special_index(special_slot_at(next)) == Some(next));
    lemma_remainders_add(index, direction, more, 10);
}

proof fn lemma_remainders_add(a: int, b: int, c: int, m: int)
    requires
        m > 0,
    ensures
        ((a + b) % m + c) % m == (a + (b + c)) % m,
{
    vstd::arithmetic::div_mod::lemma_add_mod_noop(a + b, c, m);
    vstd::arithmetic::div_mod::lemma_add_mod_noop((a + b) % m, c, m);
    vstd::arithmetic::div_mod::lemma_mod_twice(a + b, m);
    assert(a + b + c == a + (b + c));
}

/// The cursor can be on every cell of the storage grid, on the crafting and
/// armor slots, and on the offhand.
pub proof fn law_cursor_places(ui: InventoryUi)
    requires
        ui.row < 4,
        ui.column < 9,
    ensures
        ui.special_slot is None ==> cursor_fits(ui),
        ui.special_slot matches Some(slot) ==> (slot < 9 || slot == 45 <==> cursor_fits(ui)),
{
}

} // verus!
