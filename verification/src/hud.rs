//! Packet-backed player HUD state and terminal-friendly formatting.
use vstd::prelude::*;

use crate::text::{
    append_decimal, append_repeated, append_right_aligned, ascii_upper, begins_with, chars_of,
    decimal, decimal_text, repeated, right_aligned, same_text, text_after, to_ascii_upper,
};

verus! {

/// The slots of the hotbar.
pub const HOTBAR_SLOTS: usize = 9;

/// The player menu's slot of the first hotbar slot.
pub const PLAYER_MENU_HOTBAR_START: usize = 36;

/// The slots of the player menu: crafting, armor, storage, hotbar, offhand.
pub const PLAYER_MENU_SLOTS: usize = 46;

/// The cells of a meter.
pub const BAR_WIDTH: usize = 10;

/// The largest food level.
pub const MAX_FOOD: u32 = 20;

/// The air supply, in ticks, of a player with full lungs.
pub const FULL_AIR: i32 = 300;

/// The display data needed for one inventory cell.
#[derive(Clone, Debug, PartialEq, Eq)]
pub struct HotbarSlot {
    pub item_id: Option<String>,
    pub count: u32,
}

/// A measured value: how it is written, and how many cells of its meter are
/// filled.
#[derive(Clone, Debug, PartialEq, Eq)]
pub struct Reading {
    pub text: String,
    pub filled: usize,
}

/// What a slot shows: an item without namespace, if any, and a count.
pub struct SlotView {
    pub item: Option<Seq<char>>,
    pub count: nat,
}

impl View for HotbarSlot {
    type V = SlotView;

    open spec fn view(&self) -> SlotView {
        SlotView {
            item: match self.item_id {
                Some(id) => Some(id@),
                None => None,
            },
            count: self.count as nat,
        }
    }
}

/// An empty slot.
pub open spec fn empty_slot() -> SlotView {
    SlotView { item: None, count: 0 }
}

/// An identifier without the `minecraft:` namespace.
pub open spec fn without_namespace(id: Seq<char>) -> Seq<char> {
    if begins_with(id, "minecraft:"@) {
        id.skip("minecraft:"@.len() as int)
    } else {
        id
    }
}

/// What a slot shows after the server sent an item and a count: air and items
/// without a positive count leave it empty.
pub open spec fn slot_content(item_id: Option<Seq<char>>, count: int) -> SlotView {
    SlotView {
        item: match item_id {
            Some(id) => if id != "minecraft:air"@ && count > 0 {
                Some(without_namespace(id))
            } else {
                None
            },
            None => None,
        },
        count: if count > 0 {
            count as nat
        } else {
            0
        },
    }
}

/// Where the first word at or after `from` starts: words are separated by
/// underscores. The length of `id` if no word is left.
pub open spec fn word_start(id: Seq<char>, from: int) -> int
    decreases id.len() - from,
{
    if 0 <= from < id.len() && id[from] == '_' {
        word_start(id, from + 1)
    } else {
        from
    }
}

/// Where the word that holds position `from` ends.
pub open spec fn word_end(id: Seq<char>, from: int) -> int
    decreases id.len() - from,
{
    if 0 <= from < id.len() && id[from] != '_' {
        word_end(id, from + 1)
    } else {
        from
    }
}

/// The two-letter code of an item: the initials of its first two words, or the
/// first two letters of its only word, in upper case.
pub open spec fn code_of(id: Seq<char>) -> Seq<char> {
    let first = word_start(id, 0);
    let end = word_end(id, first);
    let second = word_start(id, end);
    if first >= id.len() {
        seq!['?', '?']
    } else if second < id.len() {
        seq![ascii_upper(id[first]), ascii_upper(id[second])]
    } else if first + 1 < end {
        seq![ascii_upper(id[first]), ascii_upper(id[first + 1])]
    } else {
        seq![ascii_upper(id[first]), '?']
    }
}

/// The count that a cell shows: two digits at most.
pub open spec fn shown_count(count: nat) -> nat {
    if count <= 99 {
        count
    } else {
        99
    }
}

/// The four characters of a slot.
pub open spec fn slot_text(slot: SlotView) -> Seq<char> {
    match slot.item {
        Some(id) => code_of(id) + right_aligned(decimal(shown_count(slot.count)), 2),
        None => "----"@,
    }
}

/// A cell between its marks.
pub open spec fn marked(content: Seq<char>, selected: bool) -> Seq<char> {
    if selected {
        seq!['>'] + content + seq!['<']
    } else {
        seq![' '] + content + seq![' ']
    }
}

/// The cell of a hotbar slot: its number and its content.
pub open spec fn hotbar_cell(slots: Seq<HotbarSlot>, selected: int, index: int) -> Seq<char> {
    marked(
        decimal((index + 1) as nat) + ":"@ + slot_text(slots[36 + index]@),
        index == selected,
    )
}

/// The cells of the first `count` hotbar slots.
pub open spec fn hotbar_cells(slots: Seq<HotbarSlot>, selected: int, count: nat) -> Seq<char>
    decreases count,
{
    if count == 0 {
        Seq::empty()
    } else {
        hotbar_cells(slots, selected, (count - 1) as nat) + hotbar_cell(slots, selected, count - 1)
    }
}

/// A meter with the given number of filled cells, or with unknown ones.
pub open spec fn meter_text(filled: Option<nat>) -> Seq<char> {
    match filled {
        None => repeated('?', 10),
        Some(filled) => if filled <= 10 {
            repeated('#', filled) + repeated('-', (10 - filled) as nat)
        } else {
            repeated('#', 10)
        },
    }
}

/// The notation of a number, or a question mark.
pub open spec fn number_text(value: Option<u32>) -> Seq<char> {
    match value {
        Some(value) => decimal(value as nat),
        None => "?"@,
    }
}

/// The two-letter code of an item.
pub fn item_code(item_id: &str) -> (code: String)
    ensures
        code@ == code_of(item_id@),
{
    let chars = chars_of(item_id);
    let first = skip_separators(&chars, 0);
    let mut code = String::new();
    if first >= chars.len() {
        code.push('?');
        code.push('?');
        assert(code@ =~= code_of(item_id@));
        return code;
    }
    let end = skip_word(&chars, first);
    let second = skip_separators(&chars, end);
    code.push(to_ascii_upper(chars[first]));
    if second < chars.len() {
        code.push(to_ascii_upper(chars[second]));
    } else if first + 1 < end {
        code.push(to_ascii_upper(chars[first + 1]));
    } else {
        code.push('?');
    }
    assert(code@ =~= code_of(item_id@));
    code
}

fn skip_separators(chars: &Vec<char>, from: usize) -> (at: usize)
    requires
        from <= chars@.len(),
    ensures
        at == word_start(chars@, from as int),
        from <= at <= chars@.len(),
{
    let mut at: usize = from;
    while at < chars.len() && chars[at] == '_'
        invariant
            from <= at <= chars@.len(),
            word_start(chars@, at as int) == word_start(chars@, from as int),
        decreases chars@.len() - at,
    {
        at = at + 1;
    }
    at
}

fn skip_word(chars: &Vec<char>, from: usize) -> (at: usize)
    requires
        from <= chars@.len(),
    ensures
        at == word_end(chars@, from as int),
        from <= at <= chars@.len(),
{
    let mut at: usize = from;
    while at < chars.len() && chars[at] != '_'
        invariant
            from <= at <= chars@.len(),
            word_end(chars@, at as int) == word_end(chars@, from as int),
        decreases chars@.len() - at,
    {
        at = at + 1;
    }
    at
}

/// Appends a meter with the given number of filled cells, or with unknown
/// ones.
fn append_meter(output: &mut String, filled: Option<usize>)
    ensures
        final(output)@ == old(output)@ + meter_text(
            match filled {
                Some(filled) => Some(filled as nat),
                None => None,
            },
        ),
{
    match filled {
        None => append_repeated(output, '?', BAR_WIDTH),
        Some(filled) => {
            if filled <= BAR_WIDTH {
                append_repeated(output, '#', filled);
                append_repeated(output, '-', BAR_WIDTH - filled);
                assert(output@ =~= old(output)@ + meter_text(Some(filled as nat)));
            } else {
                append_repeated(output, '#', BAR_WIDTH);
            }
        },
    }
}

impl HotbarSlot {
    /// An empty slot.
    pub fn empty() -> (slot: Self)
        ensures
            slot@ == empty_slot(),
    {
        HotbarSlot { item_id: None, count: 0 }
    }

    /// The slot that shows what the server sent.
    pub fn from_stack(item_id: Option<&str>, count: i32) -> (slot: Self)
        ensures
            slot@ == slot_content(
                match item_id {
                    Some(id) => Some(id@),
                    None => None,
                },
                count as int,
            ),
    {
        let shown: u32 = if count > 0 {
            count as u32
        } else {
            0
        };
        match item_id {
            Some(id) => {
                if same_text(id, "minecraft:air") || count <= 0 {
                    HotbarSlot { item_id: None, count: shown }
                } else {
                    match text_after(id, "minecraft:") {
                        Some(rest) => HotbarSlot { item_id: Some(rest.to_owned()), count: shown },
                        None => HotbarSlot { item_id: Some(id.to_owned()), count: shown },
                    }
                }
            },
            None => HotbarSlot { item_id: None, count: shown },
        }
    }

    /// Appends the four characters of this slot.
    fn append_to(&self, output: &mut String)
        ensures
            final(output)@ == old(output)@ + slot_text(self@),
    {
        match &self.item_id {
            Some(id) => {
                let code = item_code(id.as_str());
                output.append(code.as_str());
                let count: u32 = if self.count <= 99 {
                    self.count
                } else {
                    99
                };
                let digits = decimal_text(count as u64);
                append_right_aligned(output, digits.as_str(), 2);
                assert(output@ =~= old(output)@ + slot_text(self@));
            },
            None => output.append("----"),
        }
    }
}

/// A small, thread-safe-to-clone view of the player's HUD state.
///
/// This intentionally stores only values received from server packets. The
/// terminal renderer can therefore render health and inventory state without
/// touching the client's world or retaining an inventory lock.
#[derive(Clone, Debug, PartialEq, Eq)]
pub struct HudSnapshot {
    pub health: Option<Reading>,
    pub food: Option<u32>,
    /// Filled cells of the experience meter.
    pub experience_progress: Option<usize>,
    pub experience_level: Option<u32>,
    pub selected_hotbar_slot: usize,
    /// The player menu, hotbar included.
    pub slots: Vec<HotbarSlot>,
    /// The stack that the cursor carries.
    pub carried: HotbarSlot,
    pub air_supply: Option<i32>,
    pub underwater: bool,
}

/// A slot of the hotbar.
pub open spec fn hotbar_slot_of(hud: HudSnapshot, index: int) -> HotbarSlot {
    hud.slots@[36 + index]
}

/// How many cells of the air meter an air supply fills.
pub open spec fn air_cells(air: int) -> nat {
    if air <= 0 {
        0
    } else if air >= FULL_AIR {
        10
    } else {
        ((air + 15) / 30) as nat
    }
}

/// The air supply that is being used up: the one of a player under water.
pub open spec fn used_air(hud: HudSnapshot) -> Option<i32> {
    if hud.underwater {
        hud.air_supply
    } else {
        None
    }
}

/// The drowning indicator: an air meter while air is being used up.
pub open spec fn air_text(hud: HudSnapshot) -> Seq<char> {
    match used_air(hud) {
        Some(air) => "  Air ["@ + meter_text(Some(air_cells(air as int))) + "]"@,
        None => Seq::empty(),
    }
}

/// The status line of a HUD.
pub open spec fn status_text(hud: HudSnapshot) -> Seq<char> {
    let health = match hud.health {
        Some(reading) => reading.text@,
        None => "?"@,
    };
    let health_filled = match hud.health {
        Some(reading) => Some(reading.filled as nat),
        None => None,
    };
    let food_filled = match hud.food {
        Some(food) => Some(((food + 1) / 2) as nat),
        None => None,
    };
    let progress = match hud.experience_progress {
        Some(filled) => Some(filled as nat),
        None => None,
    };
    "HP "@ + right_aligned(health, 4) + "/20 ["@ + meter_text(health_filled) + "]  Food "@
        + right_aligned(number_text(hud.food), 2) + "/20 ["@ + meter_text(food_filled)
        + "]  XP Lv "@ + right_aligned(number_text(hud.experience_level), 3) + " ["@ + meter_text(
        progress,
    ) + "]"@ + air_text(hud)
}

impl HudSnapshot {
    /// The player menu is complete, the selection is a hotbar slot, and food
    /// is within its range.
    pub open spec fn wf(self) -> bool {
        &&& self.slots@.len() == PLAYER_MENU_SLOTS
        &&& self.selected_hotbar_slot < HOTBAR_SLOTS
        &&& self.food is Some ==> self.food->0 <= MAX_FOOD
    }

    /// What a slot of the player menu shows; slots beyond the menu are empty.
    pub open spec fn slot(self, index: int) -> SlotView {
        if 0 <= index < self.slots@.len() {
            self.slots@[index]@
        } else {
            empty_slot()
        }
    }

    /// Whether everything but the menu's slots is as in another HUD.
    pub open spec fn same_but_slots(self, other: Self) -> bool {
        &&& self.health == other.health
        &&& self.food == other.food
        &&& self.experience_progress == other.experience_progress
        &&& self.experience_level == other.experience_level
        &&& self.selected_hotbar_slot == other.selected_hotbar_slot
        &&& self.carried == other.carried
        &&& self.air_supply == other.air_supply
        &&& self.underwater == other.underwater
    }

    /// Keeps the health reading and the food level, which is at most twenty.
    pub fn set_health(&mut self, health: Reading, food: u32)
        requires
            old(self).wf(),
        ensures
            final(self).wf(),
            *final(self) == (HudSnapshot {
                health: Some(health),
                food: Some(
                    if food <= 20 {
                        food
                    } else {
                        20
                    },
                ),
                ..*old(self)
            }),
    {
        self.health = Some(health);
        self.food = Some(
            if food <= MAX_FOOD {
                food
            } else {
                MAX_FOOD
            },
        );
    }

    /// Keeps the filled cells of the experience meter and the level.
    pub fn set_experience(&mut self, filled: usize, level: u32)
        requires
            old(self).wf(),
        ensures
            final(self).wf(),
            *final(self) == (HudSnapshot {
                experience_progress: Some(filled),
                experience_level: Some(level),
                ..*old(self)
            }),
    {
        self.experience_progress = Some(filled);
        self.experience_level = Some(level);
    }

    /// Selects a hotbar slot; other slots cannot be selected.
    pub fn set_selected_hotbar_slot(&mut self, slot: usize)
        requires
            old(self).wf(),
        ensures
            final(self).wf(),
            *final(self) == (if slot < 9 {
                HudSnapshot { selected_hotbar_slot: slot, ..*old(self) }
            } else {
                *old(self)
            }),
    {
        if slot < HOTBAR_SLOTS {
            self.selected_hotbar_slot = slot;
        }
    }

    /// Update a player inventory-menu slot. The hotbar is its slots 36 to 44.
    pub fn set_player_menu_slot(&mut self, slot: usize, item_id: Option<&str>, count: i32)
        requires
            old(self).wf(),
        ensures
            final(self).wf(),
            final(self).same_but_slots(*old(self)),
            forall|i: int| #[trigger]
                final(self).slot(i) == (if i == slot && slot < 46 {
                    slot_content(
                        match item_id {
                            Some(id) => Some(id@),
                            None => None,
                        },
                        count as int,
                    )
                } else {
                    old(self).slot(i)
                }),
    {
        if slot < PLAYER_MENU_SLOTS {
            self.slots.set(slot, HotbarSlot::from_stack(item_id, count));
        }
    }

    /// Update a hotbar-indexed slot, used by the dedicated player-inventory
    /// packet introduced by newer Minecraft protocol versions.
    pub fn set_hotbar_slot(&mut self, slot: usize, item_id: Option<&str>, count: i32)
        requires
            old(self).wf(),
        ensures
            final(self).wf(),
            final(self).same_but_slots(*old(self)),
            forall|i: int| #[trigger]
                final(self).slot(i) == (if slot < 9 && i == 36 + slot {
                    slot_content(
                        match item_id {
                            Some(id) => Some(id@),
                            None => None,
                        },
                        count as int,
                    )
                } else {
                    old(self).slot(i)
                }),
    {
        if slot < HOTBAR_SLOTS {
            self.set_player_menu_slot(PLAYER_MENU_HOTBAR_START + slot, item_id, count);
        }
    }

    /// Keeps the stack that the cursor carries.
    pub fn set_carried_item(&mut self, item_id: Option<&str>, count: i32)
        requires
            old(self).wf(),
        ensures
            final(self).wf(),
            final(self).carried@ == slot_content(
                match item_id {
                    Some(id) => Some(id@),
                    None => None,
                },
                count as int,
            ),
            *final(self) == (HudSnapshot { carried: final(self).carried, ..*old(self) }),
    {
        self.carried = HotbarSlot::from_stack(item_id, count);
    }

    /// Keeps the air supply and whether the eyes are under water.
    pub fn set_air_supply(&mut self, air_supply: Option<i32>, underwater: bool)
        requires
            old(self).wf(),
        ensures
            final(self).wf(),
            *final(self) == (HudSnapshot { air_supply, underwater, ..*old(self) }),
    {
        self.air_supply = air_supply;
        self.underwater = underwater;
    }

    /// The air supply while it is being used up.
    pub fn drowning(&self) -> (air: Option<i32>)
        ensures
            air == used_air(*self),
    {
        if self.underwater {
            self.air_supply
        } else {
            None
        }
    }

    /// A hotbar slot.
    pub fn hotbar_slot(&self, index: usize) -> (slot: &HotbarSlot)
        requires
            self.wf(),
            index < 9,
        ensures
            *slot == hotbar_slot_of(*self, index as int),
    {
        &self.slots[PLAYER_MENU_HOTBAR_START + index]
    }

    /// Health, food and experience, each with its meter, and the air of a player
    /// under water.
    pub fn status_line(&self) -> (line: String)
        requires
            self.wf(),
        ensures
            line@ == status_text(*self),
    {
        let mut line = String::new();
        line.append("HP ");
        match &self.health {
            Some(reading) => append_right_aligned(&mut line, reading.text.as_str(), 4),
            None => append_right_aligned(&mut line, "?", 4),
        }
        line.append("/20 [");
        append_meter(
            &mut line,
            match &self.health {
                Some(reading) => Some(reading.filled),
                None => None,
            },
        );
        line.append("]  Food ");
        append_number(&mut line, self.food, 2);
        line.append("/20 [");
        append_meter(
            &mut line,
            match self.food {
                Some(food) => Some(((food + 1) / 2) as usize),
                None => None,
            },
        );
        line.append("]  XP Lv ");
        append_number(&mut line, self.experience_level, 3);
        line.append(" [");
        append_meter(&mut line, self.experience_progress);
        line.append("]");
        match self.drowning() {
            Some(air) => {
                line.append("  Air [");
                let filled: usize = if air <= 0 {
                    0
                } else if air >= FULL_AIR {
                    BAR_WIDTH
                } else {
                    ((air + 15) / 30) as usize
                };
                append_meter(&mut line, Some(filled));
                line.append("]");
            },
            None => {},
        }
        assert(line@ =~= status_text(*self));
        line
    }

    /// The hotbar, with the selected slot marked.
    pub fn hotbar_line(&self) -> (line: String)
        requires
            self.wf(),
        ensures
            line@ == "hotbar "@ + hotbar_cells(
                self.slots@,
                self.selected_hotbar_slot as int,
                9,
            ),
    {
        let mut line = String::new();
        line.append("hotbar ");
        assert(line@ =~= "hotbar "@ + hotbar_cells(
            self.slots@,
            self.selected_hotbar_slot as int,
            0,
        ));
        let mut index: usize = 0;
        while index < HOTBAR_SLOTS
            invariant
                index <= 9,
                self.wf(),
                line@ == "hotbar "@ + hotbar_cells(
                    self.slots@,
                    self.selected_hotbar_slot as int,
                    index as nat,
                ),
            decreases 9 - index,
        {
            let ghost before = line@;
            let selected = index == self.selected_hotbar_slot;
            line.push(
                if selected {
                    '>'
                } else {
                    ' '
                },
            );
            append_decimal(&mut line, (index + 1) as u64);
            line.append(":");
            self.slots[PLAYER_MENU_HOTBAR_START + index].append_to(&mut line);
            line.push(
                if selected {
                    '<'
                } else {
                    ' '
                },
            );
            assert(line@ =~= before + hotbar_cell(
                self.slots@,
                self.selected_hotbar_slot as int,
                index as int,
            ));
            index = index + 1;
            assert(line@ =~= "hotbar "@ + hotbar_cells(
                self.slots@,
                self.selected_hotbar_slot as int,
                index as nat,
            ));
        }
        line
    }

    /// The cell of a player-menu slot, marked when it is selected.
    pub fn inventory_cell(&self, slot: usize, selected: bool) -> (cell: String)
        ensures
            cell@ == marked(slot_text(self.slot(slot as int)), selected),
    {
        let mut cell = String::new();
        cell.push(
            if selected {
                '>'
            } else {
                ' '
            },
        );
        if slot < self.slots.len() {
            self.slots[slot].append_to(&mut cell);
        } else {
            cell.append("----");
        }
        cell.push(
            if selected {
                '<'
            } else {
                ' '
            },
        );
        assert(cell@ =~= marked(slot_text(self.slot(slot as int)), selected));
        cell
    }

    /// The cell of the carried stack.
    pub fn carried_cell(&self) -> (cell: String)
        ensures
            cell@ == slot_text(self.carried@),
    {
        let mut cell = String::new();
        self.carried.append_to(&mut cell);
        assert(cell@ =~= slot_text(self.carried@));
        cell
    }
}

/// Appends a number or a question mark, right-aligned.
fn append_number(output: &mut String, value: Option<u32>, width: usize)
    ensures
        final(output)@ == old(output)@ + right_aligned(number_text(value), width as nat),
{
    match value {
        Some(value) => {
            let digits = decimal_text(value as u64);
            append_right_aligned(output, digits.as_str(), width);
        },
        None => append_right_aligned(output, "?", width),
    }
}

impl Default for HudSnapshot {
    fn default() -> (hud: Self)
        ensures
            hud.wf(),
            hud.health is None,
            hud.food is None,
            hud.experience_progress is None,
            hud.experience_level is None,
            hud.selected_hotbar_slot == 0,
            forall|i: int| #[trigger] hud.slot(i) == empty_slot(),
            hud.carried@ == empty_slot(),
            hud.air_supply is None,
            !hud.underwater,
    {
        let mut slots: Vec<HotbarSlot> = Vec::new();
        while slots.len() < PLAYER_MENU_SLOTS
            invariant
                slots@.len() <= PLAYER_MENU_SLOTS,
                forall|i: int| 0 <= i < slots@.len() ==> (#[trigger] slots@[i])@ == empty_slot(),
            decreases PLAYER_MENU_SLOTS - slots@.len(),
        {
            slots.push(HotbarSlot::empty());
        }
        HudSnapshot {
            health: None,
            food: None,
            experience_progress: None,
            experience_level: None,
            selected_hotbar_slot: 0,
            slots,
            carried: HotbarSlot::empty(),
            air_supply: None,
            underwater: false,
        }
    }
}

/// A number below a hundred takes one digit or two.
proof fn lemma_short_decimal(value: nat)
    requires
        value <= 99,
    ensures
        decimal(value).len() == if value < 10 {
            1nat
        } else {
            2nat
        },
{
    reveal_with_fuel(decimal, 3);
}

/// Every slot takes four characters: a two-letter code and a two-digit count,
/// or four dashes.
pub proof fn law_slots_take_four_characters(slot: SlotView)
    ensures
        slot_text(slot).len() == 4,
        slot.item is Some ==> code_of(slot.item->0).len() == 2,
{
    reveal_strlit("----");
    lemma_short_decimal(shown_count(slot.count));
}

proof fn lemma_hotbar_cells_width(slots: Seq<HotbarSlot>, selected: int, count: nat)
    requires
        count <= 9,
    ensures
        hotbar_cells(slots, selected, count).len() == 8 * count,
    decreases count,
{
    if count > 0 {
        lemma_hotbar_cells_width(slots, selected, (count - 1) as nat);
        law_slots_take_four_characters(slots[36 + count - 1]@);
        lemma_short_decimal(count);
        reveal_strlit(":");
    }
}

/// The hotbar line always takes 79 characters, whatever the slots hold.
pub proof fn law_hotbar_line_width(slots: Seq<HotbarSlot>, selected: int)
    ensures
        ("hotbar "@ + hotbar_cells(slots, selected, 9)).len() == 79,
{
    reveal_strlit("hotbar ");
    lemma_hotbar_cells_width(slots, selected, 9);
}

/// A meter always takes ten characters.
pub proof fn law_meters_take_ten_characters(filled: Option<nat>)
    ensures
        meter_text(filled).len() == 10,
{
}

/// The drowning indicator shows exactly under water, once the air supply is
/// known; it fills with the supply and is full at most.
pub proof fn law_drowning_indicator(hud: HudSnapshot, more: int)
    ensures
        air_text(hud).len() > 0 <==> hud.underwater && hud.air_supply is Some,
        match used_air(hud) {
            Some(air) => air_cells(air as int) <= 10 && (air <= more ==> air_cells(air as int)
                <= air_cells(more)),
            None => true,
        },
{
    reveal_strlit("  Air [");
}

/// The server's item comes back without its namespace: an item sent with the
/// `minecraft:` prefix shows as the same item sent without it.
pub proof fn law_namespace_is_dropped(id: Seq<char>, count: int)
    requires
        count > 0,
        id != "air"@,
        !begins_with(id, "minecraft:"@),
    ensures
        slot_content(Some("minecraft:"@ + id), count) == slot_content(Some(id), count),
{
    reveal_strlit("minecraft:");
    reveal_strlit("minecraft:air");
    reveal_strlit("air");
    let full = "minecraft:"@ + id;
    assert(full.skip(10) =~= id);
    assert(full.subrange(0, 10) =~= "minecraft:"@);
    if full == "minecraft:air"@ {
        assert("minecraft:air"@.skip(10) =~= "air"@);
    }
    if id == "minecraft:air"@ {
        assert(id.subrange(0, 10) =~= "minecraft:"@);
    }
}

/// A meter is filled from the left: its first cells are filled, as many as are
/// asked for, and the rest are not. An unknown meter has neither.
pub proof fn law_meters_fill_from_the_left(filled: nat, i: int)
    requires
        0 <= i < 10,
    ensures
        meter_text(Some(filled))[i] == '#' <==> i < filled,
        meter_text(Some(filled))[i] == '-' <==> i >= filled,
        meter_text(None)[i] == '?',
{
}

/// The air meter shows the supply to the nearest thirty ticks, from empty
/// lungs to full ones.
pub proof fn law_air_is_rounded(air: int)
    ensures
        0 <= air <= 300 ==> -15 <= 30 * air_cells(air) - air <= 15,
        air <= 0 ==> air_cells(air) == 0,
        air >= 300 ==> air_cells(air) == 10,
{
}

/// The drowning indicator is an air meter between brackets.
pub proof fn law_drowning_indicator_shows_the_air(hud: HudSnapshot, air: i32)
    requires
        hud.underwater,
        hud.air_supply == Some(air),
    ensures
        air_text(hud).len() == 18,
        air_text(hud).subrange(7, 17) == meter_text(Some(air_cells(air as int))),
{
    reveal_strlit("  Air [");
    reveal_strlit("]");
    assert("  Air ["@.len() == 7);
    assert("]"@.len() == 1);
    assert(air_text(hud).subrange(7, 17) =~= meter_text(Some(air_cells(air as int))));
}

/// Where words of an identifier end and start again.
proof fn lemma_words(id: Seq<char>, from: int, to: int)
    requires
        0 <= from <= to <= id.len(),
    ensures
        (forall|i: int| from <= i < to ==> #[trigger] id[i] == '_') && (to == id.len() || id[to]
            != '_') ==> word_start(id, from) == to,
        (forall|i: int| from <= i < to ==> #[trigger] id[i] != '_') && (to == id.len() || id[to]
            == '_') ==> word_end(id, from) == to,
    decreases to - from,
{
    if from < to {
        lemma_words(id, from + 1, to);
    }
}

/// The code of an item is made of the initials of its first two words, in
/// upper case. Words are parted by underscores: the first one stands at
/// `first` up to `end`, and the second one, if there is one, at `second`.
pub proof fn law_codes_are_initials(id: Seq<char>, first: int, end: int, second: int)
    requires
        0 <= first < end <= second <= id.len(),
        forall|i: int| 0 <= i < first ==> #[trigger] id[i] == '_',
        forall|i: int| first <= i < end ==> #[trigger] id[i] != '_',
        forall|i: int| end <= i < second ==> #[trigger] id[i] == '_',
        end < id.len() ==> id[end] == '_',
        second < id.len() ==> id[second] != '_',
    ensures
        code_of(id).len() == 2,
        code_of(id)[0] == ascii_upper(id[first]),
        second < id.len() ==> code_of(id)[1] == ascii_upper(id[second]),
        second == id.len() && end - first >= 2 ==> code_of(id)[1] == ascii_upper(id[first + 1]),
        second == id.len() && end - first == 1 ==> code_of(id)[1] == '?',
{
    lemma_words(id, 0, first);
    lemma_words(id, first, end);
    lemma_words(id, end, second);
}

/// An identifier without letters has no code.
pub proof fn law_nameless_items_have_no_code(id: Seq<char>)
    requires
        forall|i: int| 0 <= i < id.len() ==> #[trigger] id[i] == '_',
    ensures
        code_of(id) == seq!['?', '?'],
{
    lemma_words(id, 0, id.len() as int);
}

/// A slot shows the code of its item and then how many there are, as a number
/// of two digits; more than 99 are shown as 99. An empty slot shows dashes.
pub proof fn law_slots_show_item_and_count(slot: SlotView)
    ensures
        slot.item matches Some(id) ==> {
            let text = slot_text(slot);
            let tens = text[2];
            let ones = text[3];
            &&& text.subrange(0, 2) == code_of(id)
            &&& slot.count <= 99 ==> ones as int - '0' as int == slot.count % 10
            &&& 10 <= slot.count <= 99 ==> tens as int - '0' as int == slot.count / 10
            &&& slot.count < 10 ==> tens == ' '
            &&& slot.count > 99 ==> tens == '9' && ones == '9'
        },
        slot.item is None ==> forall|i: int| 0 <= i < 4 ==> #[trigger] slot_text(slot)[i] == '-',
{
    match slot.item {
        Some(id) => {
            law_slots_take_four_characters(slot);
            let shown = shown_count(slot.count);
            reveal_with_fuel(decimal, 3);
            lemma_short_decimal(shown);
            let text = slot_text(slot);
            let number = right_aligned(decimal(shown), 2);
            assert(number.len() == 2);
            assert(text.subrange(0, 2) =~= code_of(id));
            assert(text[2] == number[0] && text[3] == number[1]);
        },
        None => {
            reveal_strlit("----");
            assert("----"@.len() == 4);
            assert("----"@[0] == '-' && "----"@[1] == '-' && "----"@[2] == '-' && "----"@[3] == '-');
        },
    }
}

/// Marks stand around the content, pointing at it if it is selected.
pub proof fn law_marks_point_at_the_selection(content: Seq<char>, selected: bool)
    ensures
        marked(content, selected).len() == content.len() + 2,
        marked(content, selected).subrange(1, 1 + content.len() as int) == content,
        marked(content, selected)[0] == '>' <==> selected,
        marked(content, selected).last() == '<' <==> selected,
        marked(content, false)[0] == ' ' && marked(content, false).last() == ' ',
{
    assert(marked(content, selected).subrange(1, 1 + content.len() as int) =~= content);
}

/// Cells of the hotbar stay where they are when more are written.
proof fn lemma_hotbar_cell_stays(slots: Seq<HotbarSlot>, selected: int, count: nat, index: int)
    requires
        0 <= index < count <= 9,
    ensures
        hotbar_cells(slots, selected, count).len() == 8 * count,
        hotbar_cells(slots, selected, count).subrange(8 * index, 8 * index + 8) == hotbar_cell(
            slots,
            selected,
            index,
        ),
    decreases count,
{
    let before = (count - 1) as nat;
    lemma_hotbar_cells_width(slots, selected, count);
    lemma_hotbar_cells_width(slots, selected, before);
    let all = hotbar_cells(slots, selected, count);
    if index < before {
        lemma_hotbar_cell_stays(slots, selected, before, index);
        assert(all.subrange(8 * index, 8 * index + 8) =~= hotbar_cells(
            slots,
            selected,
            before,
        ).subrange(8 * index, 8 * index + 8));
    } else {
        assert(all.subrange(8 * index, 8 * index + 8) =~= hotbar_cell(slots, selected, index));
    }
}

/// The hotbar line shows the nine slots of the hotbar from left to right, eight
/// characters each: the number of the slot and what it holds, which is what the
/// menu holds from slot 36 on. Marks point at the selected one alone.
pub proof fn law_hotbar_shows_its_slots(slots: Seq<HotbarSlot>, selected: int, index: int)
    requires
        0 <= index < 9,
    ensures
        ({
            let line = "hotbar "@ + hotbar_cells(slots, selected, 9);
            let at = 7 + 8 * index;
            &&& line[at] == '>' <==> index == selected
            &&& line[at + 7] == '<' <==> index == selected
            &&& line[at + 1] as int - '0' as int == index + 1
            &&& line[at + 2] == ':'
            &&& line.subrange(at + 3, at + 7) == slot_text(slots[36 + index]@)
        }),
{
    reveal_strlit("hotbar ");
    reveal_strlit(":");
    assert("hotbar "@.len() == 7);
    assert(":"@.len() == 1 && ":"@[0] == ':');
    lemma_hotbar_cell_stays(slots, selected, 9, index);
    law_slots_take_four_characters(slots[36 + index]@);
    lemma_short_decimal((index + 1) as nat);
    reveal_with_fuel(decimal, 2);
    let line = "hotbar "@ + hotbar_cells(slots, selected, 9);
    let at = 7 + 8 * index;
    let cell = hotbar_cell(slots, selected, index);
    let content = decimal((index + 1) as nat) + ":"@ + slot_text(slots[36 + index]@);
    law_marks_point_at_the_selection(content, index == selected);
    assert(cell.len() == 8);
    assert forall|k: int| 0 <= k < 8 implies #[trigger] line[at + k] == cell[k] by {
        assert(cell[k] == hotbar_cells(slots, selected, 9).subrange(
            8 * index,
            8 * index + 8,
        )[k]);
    }
    assert(line[at + 0] == cell[0] && line[at + 1] == cell[1] && line[at + 2] == cell[2] && line[at
        + 7] == cell[7]);
    assert(line.subrange(at + 3, at + 7) =~= slot_text(slots[36 + index]@)) by {
        assert forall|k: int| 0 <= k < 4 implies #[trigger] line.subrange(at + 3, at + 7)[k]
            == slot_text(slots[36 + index]@)[k] by {
            assert(line[at + (k + 3)] == cell[k + 3]);
        }
    }
}

/// The status line shows health, food and experience in fixed places: each
/// number right-aligned, and behind it its meter. The food meter has one cell
/// for every two points, begun ones included. What is unknown shows question
/// marks, and the drowning indicator comes last.
pub proof fn law_status_line_has_fixed_places(hud: HudSnapshot)
    requires
        hud.wf(),
        hud.health matches Some(reading) ==> reading.text@.len() <= 4,
        hud.experience_level matches Some(level) ==> level <= 999,
    ensures
        ({
            let line = status_text(hud);
            &&& hud.health matches Some(reading) ==> line.subrange(3, 7) == right_aligned(
                reading.text@,
                4,
            ) && line.subrange(12, 22) == meter_text(Some(reading.filled as nat))
            &&& hud.health is None ==> line[6] == '?' && line.subrange(12, 22) == meter_text(None)
            &&& hud.food matches Some(food) ==> line.subrange(30, 32) == right_aligned(
                decimal(food as nat),
                2,
            ) && exists|cells: nat|
                2 * cells - 1 <= food <= 2 * cells && line.subrange(37, 47) == #[trigger] meter_text(
                    Some(cells),
                )
            &&& hud.food is None ==> line[31] == '?' && line.subrange(37, 47) == meter_text(None)
            &&& hud.experience_level matches Some(level) ==> line.subrange(56, 59) == right_aligned(
                decimal(level as nat),
                3,
            )
            &&& hud.experience_level is None ==> line[58] == '?'
            &&& hud.experience_progress matches Some(filled) ==> line.subrange(61, 71)
                == meter_text(Some(filled as nat))
            &&& hud.experience_progress is None ==> line.subrange(61, 71) == meter_text(None)
            &&& line.skip(72) == air_text(hud)
        }),
{
    reveal_strlit("HP ");
    reveal_strlit("/20 [");
    reveal_strlit("]  Food ");
    reveal_strlit("]  XP Lv ");
    reveal_strlit(" [");
    reveal_strlit("]");
    reveal_strlit("?");
    assert("HP "@.len() == 3);
    assert("/20 ["@.len() == 5);
    assert("]  Food "@.len() == 8);
    assert("]  XP Lv "@.len() == 9);
    assert(" ["@.len() == 2);
    assert("]"@.len() == 1);
    assert("?"@.len() == 1 && "?"@[0] == '?');
    let line = status_text(hud);
    let health = right_aligned(
        match hud.health {
            Some(reading) => reading.text@,
            None => "?"@,
        },
        4,
    );
    let health_meter = meter_text(
        match hud.health {
            Some(reading) => Some(reading.filled as nat),
            None => None,
        },
    );
    let food = right_aligned(number_text(hud.food), 2);
    let food_meter = meter_text(
        match hud.food {
            Some(food) => Some(((food + 1) / 2) as nat),
            None => None,
        },
    );
    let level = right_aligned(number_text(hud.experience_level), 3);
    let progress = meter_text(
        match hud.experience_progress {
            Some(filled) => Some(filled as nat),
            None => None,
        },
    );
    if let Some(points) = hud.food {
        lemma_short_decimal(points as nat);
        let cells = ((points + 1) / 2) as nat;
        assert(2 * cells - 1 <= points <= 2 * cells && food_meter == meter_text(Some(cells)));
    }
    if let Some(reached) = hud.experience_level {
        lemma_three_digits(reached as nat);
    }
    assert(health.len() == 4 && food.len() == 2 && level.len() == 3);
    assert(line.subrange(3, 7) =~= health);
    assert(line.subrange(12, 22) =~= health_meter);
    assert(line.subrange(30, 32) =~= food);
    assert(line.subrange(37, 47) =~= food_meter);
    assert(line.subrange(56, 59) =~= level);
    assert(line.subrange(61, 71) =~= progress);
    assert(line.skip(72) =~= air_text(hud));
    assert(line[6] == health[3] && line[31] == food[1] && line[58] == level[2]);
}

proof fn lemma_three_digits(value: nat)
    requires
        value <= 999,
    ensures
        1 <= decimal(value).len() <= 3,
{
    reveal_with_fuel(decimal, 4);
}

/// The slots of the hotbar are those of the menu from slot 36 on.
pub proof fn law_hotbar_starts_at_slot_36(hud: HudSnapshot, index: int)
    requires
        hud.wf(),
        0 <= index < 9,
    ensures
        hotbar_slot_of(hud, index) == hud.slots@[36 + index],
        hotbar_slot_of(hud, index)@ == hud.slot(index + 36),
{
}

} // verus!
