//! The HUD lines.
use mctui::hud::{item_code, Reading};
use mctui::{HotbarSlot, HudSnapshot};

/// A health reading as it is written and metered.
fn reading(health: f32) -> Reading {
    let health = health.max(0.0);
    let text = if health.fract().abs() < 0.05 {
        format!("{health:.0}")
    } else {
        format!("{health:.1}")
    };
    Reading { text, filled: filled(health / 20.0) }
}

fn filled(value: f32) -> usize {
    (value.clamp(0.0, 1.0) * 10.0).round() as usize
}

#[test]
fn player_menu_slots_map_only_the_hotbar() {
    let mut hud = HudSnapshot::default();
    hud.set_player_menu_slot(35, Some("minecraft:dirt"), 32);
    hud.set_player_menu_slot(36, Some("minecraft:stone"), 64);
    hud.set_player_menu_slot(44, Some("minecraft:oak_log"), 12);

    assert_eq!(
        *hud.hotbar_slot(0),
        HotbarSlot { item_id: Some("stone".to_owned()), count: 64 }
    );
    assert_eq!(
        *hud.hotbar_slot(8),
        HotbarSlot { item_id: Some("oak_log".to_owned()), count: 12 }
    );
    assert!(hud.hotbar_slot(1).item_id.is_none());
}

#[test]
fn hud_lines_show_health_food_xp_and_selected_hotbar_slot() {
    let mut hud = HudSnapshot::default();
    hud.set_health(reading(19.5), 17);
    hud.set_experience(filled(0.5), 12);
    hud.set_player_menu_slot(36, Some("minecraft:stone"), 64);
    hud.set_selected_hotbar_slot(0);

    assert_eq!(
        hud.status_line(),
        "HP 19.5/20 [##########]  Food 17/20 [#########-]  XP Lv  12 [#####-----]"
    );
    assert!(hud.hotbar_line().starts_with("hotbar >1:ST64<"));
    assert_eq!(hud.hotbar_line().len(), 79);
}

#[test]
fn unknown_values_are_question_marks() {
    let hud = HudSnapshot::default();
    assert_eq!(
        hud.status_line(),
        "HP    ?/20 [??????????]  Food  ?/20 [??????????]  XP Lv   ? [??????????]"
    );
    assert_eq!(
        hud.hotbar_line(),
        "hotbar >1:----< 2:----  3:----  4:----  5:----  6:----  7:----  8:----  9:---- "
    );
}

#[test]
fn the_food_meter_rounds_as_its_share_does() {
    for food in 0..=20_u32 {
        let mut hud = HudSnapshot::default();
        hud.set_health(reading(0.0), food);
        let cells = filled(food as f32 / 20.0);
        let bar = format!("[{}{}]  XP", "#".repeat(cells), "-".repeat(10 - cells));
        assert!(hud.status_line().contains(&bar));
    }
}

#[test]
fn empty_stacks_and_air_leave_a_slot_empty() {
    let mut hud = HudSnapshot::default();
    hud.set_hotbar_slot(0, Some("minecraft:stone"), 5);
    hud.set_hotbar_slot(0, Some("minecraft:air"), 5);
    assert_eq!(*hud.hotbar_slot(0), HotbarSlot { item_id: None, count: 5 });
    hud.set_hotbar_slot(0, Some("minecraft:stone"), -2);
    assert_eq!(*hud.hotbar_slot(0), HotbarSlot { item_id: None, count: 0 });
    hud.set_hotbar_slot(0, Some("mod:thing"), 120);
    assert_eq!(
        *hud.hotbar_slot(0),
        HotbarSlot { item_id: Some("mod:thing".to_owned()), count: 120 }
    );
    assert_eq!(hud.inventory_cell(36, false), " MO99 ");
    hud.set_hotbar_slot(9, Some("minecraft:stone"), 1);
    hud.set_player_menu_slot(46, Some("minecraft:stone"), 1);
    assert_eq!(hud.inventory_cell(45, false), " ---- ");
    assert_eq!(hud.inventory_cell(46, false), " ---- ");
}

#[test]
fn item_codes_take_two_letters() {
    assert_eq!(item_code("stone"), "ST");
    assert_eq!(item_code("oak_log"), "OL");
    assert_eq!(item_code("_oak__log_pile"), "OL");
    assert_eq!(item_code("x"), "X?");
    assert_eq!(item_code("__"), "??");
    assert_eq!(item_code(""), "??");
    assert_eq!(item_code("7up"), "7U");
}

#[test]
fn the_air_meter_shows_under_water() {
    let mut hud = HudSnapshot::default();
    let dry = hud.status_line();
    hud.set_air_supply(Some(150), false);
    assert_eq!(hud.status_line(), dry);
    for (air, meter) in [
        (-20, "----------"),
        (14, "----------"),
        (15, "#---------"),
        (150, "#####-----"),
        (299, "##########"),
        (4000, "##########"),
    ] {
        hud.set_air_supply(Some(air), true);
        assert_eq!(hud.drowning(), Some(air));
        assert_eq!(hud.status_line(), format!("{dry}  Air [{meter}]"));
    }
    hud.set_air_supply(None, true);
    assert_eq!(hud.status_line(), dry);
}
