//! Streamed light and the server clock.
use std::time::{Duration, Instant};

use mctui::lighting::{nibble_at, packet_is_storable, ClockAnchor, LIGHT_SECTION_BYTES};
use mctui::{BlockPos, LightLevels, LightStore, PacketLightData, WorldTime};

type Store = LightStore<f32, Instant>;

fn light_section(index: usize, value: u8) -> Box<[u8]> {
    let mut bytes = vec![0; LIGHT_SECTION_BYTES];
    let shift = (index & 1) * 4;
    bytes[index / 2] = (value & 0x0f) << shift;
    bytes.into_boxed_slice()
}

/// Ticks that pass between the arrival of a reading and `now`.
fn elapsed(anchor: ClockAnchor<f32, Instant>, now: Instant) -> (u64, f32) {
    let rate = if anchor.time.rate.is_finite() { anchor.time.rate.max(0.0) } else { 0.0 };
    let seconds = now.saturating_duration_since(anchor.received_at).as_secs_f64();
    let ticks = f64::from(anchor.time.partial_tick.clamp(0.0, 1.0))
        + seconds.max(0.0) * 20.0 * f64::from(rate);
    (ticks.floor().min(u64::MAX as f64) as u64, ticks.fract() as f32)
}

fn time_at(store: &Store, now: Instant) -> WorldTime<f32> {
    store.time(0.0, 1.0, |anchor: ClockAnchor<f32, Instant>| elapsed(anchor, now))
}

#[test]
fn packet_masks_map_to_the_correct_negative_world_section() {
    let position = BlockPos::new(2, 3, 4);
    let index = 2 | (4 << 4) | (3 << 8);
    let mut store = Store::default();
    // In a -64..320 world, protocol bit 5 is world section 0.
    store.apply_packet(
        0,
        0,
        -64,
        PacketLightData {
            sky_present: &[5],
            block_present: &[5],
            empty_sky: &[],
            empty_block: &[],
            sky_updates: &[light_section(index, 12)],
            block_updates: &[light_section(index, 7)],
        },
    );

    assert_eq!(store.light_at(position), Some(LightLevels::new(7, 12)));
}

#[test]
fn empty_mask_removes_old_light_data() {
    let mut store = Store::default();
    store.apply_packet(
        0,
        0,
        0,
        PacketLightData {
            sky_present: &[1],
            block_present: &[],
            empty_sky: &[],
            empty_block: &[],
            sky_updates: &[light_section(0, 15)],
            block_updates: &[],
        },
    );
    store.apply_packet(
        0,
        0,
        0,
        PacketLightData {
            sky_present: &[],
            block_present: &[],
            empty_sky: &[1],
            empty_block: &[],
            sky_updates: &[],
            block_updates: &[],
        },
    );

    assert_eq!(store.light_at(BlockPos::new(0, 0, 0)), Some(LightLevels::new(0, 0)));
}

#[test]
fn sparse_updates_leave_omitted_sky_sections_unknown() {
    let mut store = Store::default();
    store.apply_packet(
        0,
        0,
        0,
        PacketLightData {
            sky_present: &[1],
            block_present: &[],
            empty_sky: &[],
            empty_block: &[],
            sky_updates: &[light_section(0, 15)],
            block_updates: &[],
        },
    );

    // Section 1 is known, but section 2 was not declared empty or sent.
    assert_eq!(store.light_at(BlockPos::new(0, 16, 0)), None);
}

#[test]
fn server_clock_advances_smoothly_between_packets() {
    let start = Instant::now();
    let mut store = Store::default();
    store.set_time(WorldTime { total_ticks: 6_000, partial_tick: 0.25, rate: 1.0 }, start);

    let advanced = time_at(&store, start + Duration::from_millis(500));
    assert_eq!(advanced.total_ticks, 6_010);
    assert!((advanced.partial_tick - 0.25).abs() < 0.001);
}

#[test]
fn stopped_server_clock_does_not_advance() {
    let start = Instant::now();
    let mut store = Store::default();
    let time = WorldTime { total_ticks: 18_000, partial_tick: 0.5, rate: 0.0 };
    store.set_time(time, start);

    assert_eq!(time_at(&store, start + Duration::from_secs(10)), time);
}

#[test]
fn clock_shows_noon_before_the_first_reading_and_never_overflows() {
    let store = Store::default();
    assert!(!store.has_received_time());
    let time = time_at(&store, Instant::now());
    assert_eq!(time, WorldTime { total_ticks: 6_000, partial_tick: 0.0, rate: 1.0 });

    let late = WorldTime { total_ticks: u64::MAX - 1, partial_tick: 0.0, rate: 1.0 };
    assert_eq!(late.advance(5, 0.5).total_ticks, u64::MAX);
    assert_eq!(late.advance(1, 0.5).advance(0, 0.25).partial_tick, 0.25);
    assert_eq!(WorldTime::noon(0, 1).day_tick(), 6_000);
    assert_eq!(WorldTime { total_ticks: 24_000 * 3 + 17, partial_tick: 0, rate: 1 }.day_tick(), 17);
}

fn sky_packet<'a>(sections: &'a [usize], updates: &'a [Box<[u8]>]) -> PacketLightData<'a> {
    PacketLightData {
        sky_present: sections,
        block_present: &[],
        empty_sky: &[],
        empty_block: &[],
        sky_updates: updates,
        block_updates: &[],
    }
}

#[test]
fn malformed_sections_are_ignored_and_later_ones_still_count() {
    let mut store = Store::default();
    let short: Box<[u8]> = vec![0xff; 7].into_boxed_slice();
    store.apply_packet(0, 0, 0, sky_packet(&[1, 2], &[short, light_section(0, 9)]));
    assert_eq!(store.light_at(BlockPos::new(0, 0, 0)), None);
    assert_eq!(store.light_at(BlockPos::new(0, 16, 0)), Some(LightLevels::new(0, 9)));
}

#[test]
fn chunks_are_kept_apart_and_forgotten_alone() {
    let mut store = Store::default();
    store.apply_packet(-1, 2, 0, sky_packet(&[1], &[light_section(255, 4)]));
    store.apply_packet(0, 0, 0, sky_packet(&[1], &[light_section(0, 8)]));
    // The last cell of a row of chunk (-1, 2): local x 15, z 15, y 0.
    assert_eq!(store.light_at(BlockPos::new(-1, 0, 47)), Some(LightLevels::new(0, 4)));
    assert_eq!(store.light_at(BlockPos::new(0, 0, 0)), Some(LightLevels::new(0, 8)));
    store.remove_chunk(-1, 2);
    assert_eq!(store.light_at(BlockPos::new(-1, 0, 47)), None);
    assert_eq!(store.light_at(BlockPos::new(0, 0, 0)), Some(LightLevels::new(0, 8)));
    store.set_time(WorldTime::noon(0.0, 1.0), Instant::now());
    store.clear_lighting();
    assert_eq!(store.light_at(BlockPos::new(0, 0, 0)), None);
    assert!(store.has_received_time());
    store.clear();
    assert!(!store.has_received_time());
}

#[test]
fn an_invalidated_cell_waits_for_the_light_of_its_section() {
    let mut store = Store::default();
    let changed = BlockPos::new(1, 0, 0);
    let beside = BlockPos::new(0, 0, 0);
    store.apply_packet(0, 0, 0, sky_packet(&[1, 2], &[light_section(0, 8), light_section(0, 1)]));
    store.invalidate(changed);
    assert_eq!(store.light_at(changed), None);
    assert_eq!(store.light_at(beside), Some(LightLevels::new(0, 8)));
    store.apply_packet(0, 0, 0, sky_packet(&[2], &[light_section(0, 3)]));
    assert_eq!(store.light_at(changed), None);
    store.apply_packet(0, 0, 0, sky_packet(&[1], &[light_section(1, 6)]));
    assert_eq!(store.light_at(changed), Some(LightLevels::new(0, 6)));
}

#[test]
fn nibbles_are_read_low_half_first() {
    assert_eq!(nibble_at(&vec![0x2f, 0x71], 0), 0xf);
    assert_eq!(nibble_at(&vec![0x2f, 0x71], 1), 0x2);
    assert_eq!(nibble_at(&vec![0x2f, 0x71], 3), 0x7);
}

#[test]
fn packets_with_unnumbered_sections_are_recognised() {
    assert!(packet_is_storable(-64, &sky_packet(&[0, 25], &[])));
    let far = [i32::MAX as usize];
    assert!(!packet_is_storable(i32::MAX, &sky_packet(&far, &[light_section(0, 1)])));
    // Without a well-formed update a selected section is never looked at.
    assert!(packet_is_storable(i32::MAX, &sky_packet(&far, &[])));
    assert!(packet_is_storable(i32::MAX, &sky_packet(&far, &[vec![1].into_boxed_slice()])));
    let empty = PacketLightData { empty_sky: &far, ..sky_packet(&[], &[]) };
    assert!(!packet_is_storable(i32::MAX, &empty));
}

#[test]
fn light_follows_the_calls() {
    let p = BlockPos::new(1, 0, 0);
    let block_packet = || PacketLightData {
        sky_present: &[],
        block_present: &[],
        empty_sky: &[],
        empty_block: &[1],
        sky_updates: &[],
        block_updates: &[],
    };
    let mut store = Store::default();
    assert_eq!(store.light_at(p), None);
    // Block light alone does not make the light known.
    store.apply_packet(0, 0, 0, block_packet());
    assert_eq!(store.light_at(p), None);
    store.apply_packet(0, 0, 0, sky_packet(&[1], &[light_section(1, 6)]));
    assert_eq!(store.light_at(p), Some(LightLevels::new(0, 6)));
    // A packet that covers the section in another kind of light ends the wait.
    store.invalidate(p);
    store.set_time(WorldTime::noon(0.0, 1.0), Instant::now());
    assert_eq!(store.light_at(p), None);
    store.apply_packet(0, 0, 0, block_packet());
    assert_eq!(store.light_at(p), Some(LightLevels::new(0, 6)));
    // A dropped chunk is unknown until its sky light is given again.
    store.invalidate(p);
    store.remove_chunk(0, 0);
    store.apply_packet(0, 0, 0, block_packet());
    assert_eq!(store.light_at(p), None);
    store.apply_packet(0, 0, 0, sky_packet(&[1], &[light_section(1, 3)]));
    assert_eq!(store.light_at(p), Some(LightLevels::new(0, 3)));
}
