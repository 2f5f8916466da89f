//! The texts that report on the view: its status line, what the player looks
//! at, and the lines of the diagnostic modes.
use vstd::prelude::*;

use crate::grid::{face_name, position_text, BlockPos, BlockSource, Face, LightLevels};
use crate::ray::{
    is_cast, key_of_bits, optional_ray_fits, ray_behind, raycast, Distance, Ray, RayHit, RayResult,
};
use crate::text::{
    append_decimal, append_right_aligned, append_signed, decimal, right_aligned, signed_decimal,
};

verus! {

/// The key of the distance within which blocks can be acted upon: five blocks.
pub const INTERACTION_REACH_KEY: i64 = 0x4014_0000_0000_0000;

/// The numbers of the status line, each written with one decimal.
#[derive(Clone, Debug, PartialEq, Eq)]
pub struct ViewNumbers {
    pub fps: String,
    pub render_ms: String,
    pub x: String,
    pub y: String,
    pub z: String,
    pub yaw: String,
    pub pitch: String,
}

/// The frames counted so far and those of a counting window that is over, once
/// a frame was drawn.
pub open spec fn frames_counted(frames: u32, window_over: bool) -> (u32, Option<u32>) {
    if window_over {
        (0u32, Some((frames + 1) as u32))
    } else {
        ((frames + 1) as u32, None)
    }
}

/// The frames counted so far and, at the end of a counting window, how many it
/// held, once a frame was drawn. The next window starts without frames.
pub fn count_frame(frames: u32, window_over: bool) -> (next: (u32, Option<u32>))
    requires
        frames < u32::MAX,
    ensures
        next == frames_counted(frames, window_over),
{
    if window_over {
        (0, Some(frames + 1))
    } else {
        (frames + 1, None)
    }
}

/// What is left of a period.
pub open spec fn pause_left(period: u64, elapsed: u64) -> int {
    if elapsed < period {
        period - elapsed
    } else {
        0
    }
}

/// How long to wait after a frame so that frames are a period apart: what is
/// left of the period since the last frame.
pub fn frame_pause(period: u64, elapsed: u64) -> (pause: u64)
    ensures
        pause == pause_left(period, elapsed),
{
    if elapsed < period {
        period - elapsed
    } else {
        0
    }
}

/// The status line of the view.
pub open spec fn view_status(textures: bool, numbers: ViewNumbers) -> Seq<char> {
    "mctui"@ + (if textures {
        " +textures"@
    } else {
        ""@
    }) + "  "@ + right_aligned(numbers.fps@, 4) + " fps  "@ + right_aligned(numbers.render_ms@, 5)
        + " ms  pos "@ + numbers.x@ + " "@ + numbers.y@ + " "@ + numbers.z@ + "  yaw "@
        + numbers.yaw@ + " pitch "@ + numbers.pitch@
}

/// The status line of the view.
pub fn view_status_line(textures: bool, numbers: &ViewNumbers) -> (line: String)
    ensures
        line@ == view_status(textures, *numbers),
{
    let mut line = String::new();
    line.append("mctui");
    line.append(
        if textures {
            " +textures"
        } else {
            ""
        },
    );
    line.append("  ");
    append_right_aligned(&mut line, numbers.fps.as_str(), 4);
    line.append(" fps  ");
    append_right_aligned(&mut line, numbers.render_ms.as_str(), 5);
    line.append(" ms  pos ");
    line.append(numbers.x.as_str());
    line.append(" ");
    line.append(numbers.y.as_str());
    line.append(" ");
    line.append(numbers.z.as_str());
    line.append("  yaw ");
    line.append(numbers.yaw.as_str());
    line.append(" pitch ");
    line.append(numbers.pitch.as_str());
    assert(line@ =~= view_status(textures, *numbers));
    line
}

/// The face through which the player sees a block.
pub open spec fn seen_face(face: Option<Face>) -> Seq<char> {
    match face {
        Some(face) => face_name(face),
        None => "inside"@,
    }
}

/// What the player looks at. `distance` is the written distance of what was
/// met, `reach` that of the end of the ray.
pub open spec fn target_text<S: BlockSource>(
    source: &S,
    result: RayResult,
    distance: Seq<char>,
    reach: Seq<char>,
) -> Seq<char> {
    match result {
        RayResult::Hit(hit) => {
            let light = source.light(hit.position);
            "target: "@ + hit.block.id@ + " @ "@ + position_text(hit.position) + "  "@ + distance
                + "m  "@ + seen_face(hit.entered_face) + "  light "@ + decimal(light.block as nat)
                + "/"@ + decimal(light.sky as nat)
        },
        RayResult::Miss => "target: sky (no block within "@ + reach + "m)"@,
        RayResult::Unloaded { position, .. } => "target: unloaded at "@ + position_text(position)
            + " after "@ + distance + "m"@,
    }
}

/// The block that the player can act upon: the one looked at, within reach.
pub open spec fn interaction_target(result: RayResult) -> Option<BlockPos> {
    match result {
        RayResult::Hit(hit) => if hit.distance.key <= INTERACTION_REACH_KEY {
            Some(hit.position)
        } else {
            None
        },
        _ => None,
    }
}

/// The distance of what a ray met.
pub open spec fn met_distance(result: RayResult) -> Option<Distance> {
    match result {
        RayResult::Hit(hit) => Some(hit.distance),
        RayResult::Unloaded { distance, .. } => Some(distance),
        RayResult::Miss => None,
    }
}

/// Whether `written` is how the distance of what a ray met is written.
pub open spec fn is_written<W: Fn(Distance) -> String>(
    write: W,
    result: RayResult,
    written: String,
) -> bool {
    match met_distance(result) {
        Some(distance) => call_ensures(write, (distance,), written),
        None => written@ == Seq::<char>::empty(),
    }
}

/// Writes the distance of what a ray met.
fn write_distance<W: Fn(Distance) -> String>(write: &W, result: &RayResult) -> (written: String)
    requires
        forall|distance: Distance| call_requires(*write, (distance,)),
    ensures
        is_written(*write, *result, written),
{
    match result {
        RayResult::Hit(hit) => write(hit.distance),
        RayResult::Unloaded { distance, .. } => write(*distance),
        RayResult::Miss => String::new(),
    }
}

/// Says what the player looks at, and which block the player can act upon.
/// `write` writes a distance with one decimal; `reach` is the written reach of
/// the ray.
pub fn target_readout<S: BlockSource, W: Fn(Distance) -> String>(
    source: &S,
    ray: Option<&Ray>,
    write: &W,
    reach: &str,
) -> (readout: (String, Option<BlockPos>))
    requires
        optional_ray_fits(ray_behind(ray)),
        forall|distance: Distance| call_requires(*write, (distance,)),
    ensures
        exists|result: RayResult, written: String| #[trigger]
            is_cast(source, ray_behind(ray), result) && #[trigger] is_written(*write, result, written)
                && readout.0@ == target_text(source, result, written@, reach@) && readout.1
                == interaction_target(result),
{
    let result = raycast(source, ray);
    let written = write_distance(write, &result);
    let mut text = String::new();
    let target = match result {
        RayResult::Hit(hit) => {
            let light = source.light_at(hit.position);
            text.append("target: ");
            text.append(hit.block.id);
            text.append(" @ ");
            hit.position.append_to(&mut text);
            text.append("  ");
            text.append(written.as_str());
            text.append("m  ");
            text.append(
                match hit.entered_face {
                    Some(face) => face.name(),
                    None => "inside",
                },
            );
            text.append("  light ");
            append_decimal(&mut text, light.block as u64);
            text.append("/");
            append_decimal(&mut text, light.sky as u64);
            if hit.distance.key <= INTERACTION_REACH_KEY {
                Some(hit.position)
            } else {
                None
            }
        },
        RayResult::Miss => {
            text.append("target: sky (no block within ");
            text.append(reach);
            text.append("m)");
            None
        },
        RayResult::Unloaded { position, .. } => {
            text.append("target: unloaded at ");
            position.append_to(&mut text);
            text.append(" after ");
            text.append(written.as_str());
            text.append("m");
            None
        },
    };
    assert(text@ =~= target_text(source, result, written@, reach@));
    assert(is_written(*write, result, written));
    (text, target)
}

/// The face of a reported hit.
pub open spec fn reported_face(face: Option<Face>) -> Seq<char> {
    match face {
        Some(face) => "Some("@ + face_name(face) + ")"@,
        None => "None"@,
    }
}

/// What the forward ray met.
pub open spec fn ray_text(result: RayResult, distance: Seq<char>, reach: Seq<char>) -> Seq<char> {
    match result {
        RayResult::Hit(hit) => "ray: "@ + hit.block.id@ + " at "@ + position_text(hit.position)
            + " ("@ + distance + " blocks, "@ + reported_face(hit.entered_face) + " face)"@,
        RayResult::Miss => "ray: no block within "@ + reach + " blocks"@,
        RayResult::Unloaded { position, .. } => "ray: chunk unloaded at "@ + position_text(position)
            + " after "@ + distance + " blocks"@,
    }
}

/// Says what the forward ray meets. `write` writes a distance with two
/// decimals; `reach` is the written reach of the ray.
pub fn forward_hit<S: BlockSource, W: Fn(Distance) -> String>(
    source: &S,
    ray: Option<&Ray>,
    write: &W,
    reach: &str,
) -> (line: String)
    requires
        optional_ray_fits(ray_behind(ray)),
        forall|distance: Distance| call_requires(*write, (distance,)),
    ensures
        exists|result: RayResult, written: String| #[trigger]
            is_cast(source, ray_behind(ray), result) && #[trigger] is_written(*write, result, written)
                && line@ == ray_text(result, written@, reach@),
{
    let result = raycast(source, ray);
    let written = write_distance(write, &result);
    let mut line = String::new();
    match result {
        RayResult::Hit(hit) => {
            line.append("ray: ");
            line.append(hit.block.id);
            line.append(" at ");
            hit.position.append_to(&mut line);
            line.append(" (");
            line.append(written.as_str());
            line.append(" blocks, ");
            match hit.entered_face {
                Some(face) => {
                    line.append("Some(");
                    line.append(face.name());
                    line.append(")");
                },
                None => line.append("None"),
            }
            line.append(" face)");
        },
        RayResult::Miss => {
            line.append("ray: no block within ");
            line.append(reach);
            line.append(" blocks");
        },
        RayResult::Unloaded { position, .. } => {
            line.append("ray: chunk unloaded at ");
            position.append_to(&mut line);
            line.append(" after ");
            line.append(written.as_str());
            line.append(" blocks");
        },
    }
    assert(line@ =~= ray_text(result, written@, reach@));
    assert(is_written(*write, result, written));
    line
}

/// The light at the player, or that none is known yet.
pub open spec fn light_text(light: Option<LightLevels>) -> Seq<char> {
    match light {
        Some(levels) => "block="@ + decimal(levels.block as nat) + " sky="@ + decimal(
            levels.sky as nat,
        ),
        None => "pending"@,
    }
}

/// Where the time of day comes from.
pub open spec fn clock_text(received: bool) -> Seq<char> {
    if received {
        "packet clock"@
    } else {
        "initial noon fallback"@
    }
}

/// The line of the monitor mode.
pub open spec fn monitor_text(
    position: Seq<char>,
    yaw: Seq<char>,
    pitch: Seq<char>,
    light: Option<LightLevels>,
    day: Seq<char>,
    received_time: bool,
) -> Seq<char> {
    "position "@ + position + "  yaw "@ + yaw + " pitch "@ + pitch + "  light "@ + light_text(light)
        + "  day "@ + day + " ("@ + clock_text(received_time) + ")"@
}

/// The line of the monitor mode, from written numbers.
pub fn monitor_line(
    position: &str,
    yaw: &str,
    pitch: &str,
    light: Option<LightLevels>,
    day: &str,
    received_time: bool,
) -> (line: String)
    ensures
        line@ == monitor_text(position@, yaw@, pitch@, light, day@, received_time),
{
    let mut line = String::new();
    line.append("position ");
    line.append(position);
    line.append("  yaw ");
    line.append(yaw);
    line.append(" pitch ");
    line.append(pitch);
    line.append("  light ");
    match light {
        Some(levels) => {
            line.append("block=");
            append_decimal(&mut line, levels.block as u64);
            line.append(" sky=");
            append_decimal(&mut line, levels.sky as u64);
        },
        None => line.append("pending"),
    }
    line.append("  day ");
    line.append(day);
    line.append(" (");
    line.append(
        if received_time {
            "packet clock"
        } else {
            "initial noon fallback"
        },
    );
    line.append(")");
    assert(line@ =~= monitor_text(position@, yaw@, pitch@, light, day@, received_time));
    line
}

/// The heading of the minimap mode. ANSI home and clear keep the map at the
/// top of the screen.
pub fn minimap_heading(center: BlockPos) -> (line: String)
    ensures
        line@ == "\x1b[H\x1b[2Jminimap at "@ + position_text(center) + " (Y layer "@
            + signed_decimal(center.y as int) + ")"@,
{
    let mut line = String::new();
    line.append("\x1b[H\x1b[2Jminimap at ");
    center.append_to(&mut line);
    line.append(" (Y layer ");
    append_signed(&mut line, center.y as i64);
    line.append(")");
    assert(line@ =~= "\x1b[H\x1b[2Jminimap at "@ + position_text(center) + " (Y layer "@
        + signed_decimal(center.y as int) + ")"@);
    line
}

/// Only a block that a ray met within reach can be acted upon; a ray that met
/// nothing, or unloaded space, offers no target.
pub proof fn law_targets_are_hit_within_reach(result: RayResult)
    ensures
        match interaction_target(result) {
            Some(position) => result matches RayResult::Hit(hit) && hit.position == position
                && hit.distance.key <= INTERACTION_REACH_KEY,
            None => result matches RayResult::Hit(hit) ==> hit.distance.key > INTERACTION_REACH_KEY,
        },
{
}

/// No frame is lost by counting: what is still counted and what was counted
/// make one more than before. A window that is over is closed with all of its
/// frames, and the next one starts without any.
pub proof fn law_frames_are_counted_once(frames: u32, window_over: bool)
    requires
        frames < u32::MAX,
    ensures
        ({
            let (open, closed) = frames_counted(frames, window_over);
            &&& closed is Some <==> window_over
            &&& closed matches Some(count) ==> open == 0 && count == frames + 1
            &&& closed is None ==> open == frames + 1
        }),
{
}

/// Frames are at least a period apart, and no later than the period asks for.
pub proof fn law_frames_are_a_period_apart(period: u64, elapsed: u64)
    ensures
        pause_left(period, elapsed) + elapsed >= period,
        elapsed <= period ==> pause_left(period, elapsed) + elapsed == period,
        elapsed >= period ==> pause_left(period, elapsed) == 0,
{
}

/// What the player looks at is named first: the block under its own name, or
/// the sky, or unloaded space. The light in it is that of the block's own cell.
pub proof fn law_targets_are_named<S: BlockSource, T: BlockSource>(
    source: &S,
    other: &T,
    result: RayResult,
    distance: Seq<char>,
    reach: Seq<char>,
)
    ensures
        match result {
            RayResult::Hit(hit) => {
                &&& target_text(source, result, distance, reach).take(
                    8 + hit.block.id@.len() as int,
                ) == "target: "@ + hit.block.id@
                &&& source.light(hit.position) == other.light(hit.position) ==> target_text(
                    source,
                    result,
                    distance,
                    reach,
                ) == target_text(other, result, distance, reach)
            },
            RayResult::Miss => target_text(source, result, distance, reach) == "target: sky (no block within "@
                + reach + "m)"@,
            RayResult::Unloaded { position, .. } => target_text(source, result, distance, reach)
                == "target: unloaded at "@ + position_text(position) + " after "@ + distance + "m"@,
        },
{
    if let RayResult::Hit(hit) = result {
        reveal_strlit("target: ");
        assert("target: "@.len() == 8);
        assert(target_text(source, result, distance, reach).take(8 + hit.block.id@.len() as int)
            =~= "target: "@ + hit.block.id@);
    }
}

/// A written distance is that of what was met, be it a block or unloaded space.
pub proof fn law_met_distances_are_written<W: Fn(Distance) -> String>(
    write: W,
    result: RayResult,
    written: String,
)
    requires
        is_written(write, result, written),
    ensures
        match result {
            RayResult::Hit(hit) => call_ensures(write, (hit.distance,), written),
            RayResult::Unloaded { distance, .. } => call_ensures(write, (distance,), written),
            RayResult::Miss => written@.len() == 0,
        },
{
}

/// The interaction reach is five blocks: the key of the number five.
pub proof fn law_reach_is_five_blocks(hit: RayHit)
    ensures
        hit.distance.key <= key_of_bits(0x4014_0000_0000_0000) <==> interaction_target(
            RayResult::Hit(hit),
        ) is Some,
        interaction_target(RayResult::Hit(hit)) matches Some(position) ==> position == hit.position,
{
}

/// The forward ray names the block that it met, at its place, or that it met
/// none, or the unloaded space that ended it.
pub proof fn law_forward_hits_are_named(result: RayResult, distance: Seq<char>, reach: Seq<char>)
    ensures
        match result {
            RayResult::Hit(hit) => {
                let start = "ray: "@ + hit.block.id@ + " at "@ + position_text(hit.position);
                ray_text(result, distance, reach).take(start.len() as int) == start
            },
            RayResult::Miss => ray_text(result, distance, reach) == "ray: no block within "@ + reach
                + " blocks"@,
            RayResult::Unloaded { position, .. } => ray_text(result, distance, reach)
                == "ray: chunk unloaded at "@ + position_text(position) + " after "@ + distance
                + " blocks"@,
        },
{
    if let RayResult::Hit(hit) = result {
        let start = "ray: "@ + hit.block.id@ + " at "@ + position_text(hit.position);
        assert(ray_text(result, distance, reach).take(start.len() as int) =~= start);
    }
}

/// The monitor tells known light from light that is still to come, and writes
/// block light before sky light.
pub proof fn law_light_is_reported(levels: LightLevels)
    ensures
        light_text(None) == "pending"@,
        ({
            let block = decimal(levels.block as nat);
            let text = light_text(Some(levels));
            &&& text.subrange(6, 6 + block.len() as int) == block
            &&& text.skip(11 + block.len() as int) == decimal(levels.sky as nat)
        }),
{
    reveal_strlit("block=");
    reveal_strlit(" sky=");
    assert("block="@.len() == 6);
    assert(" sky="@.len() == 5);
    let block = decimal(levels.block as nat);
    let text = light_text(Some(levels));
    assert(text.subrange(6, 6 + block.len() as int) =~= block);
    assert(text.skip(11 + block.len() as int) =~= decimal(levels.sky as nat));
}

/// The line of the monitor starts with the position and ends with where the
/// time of day comes from: a reading of the server, or noon before the first
/// one.
pub proof fn law_monitor_names_its_clock(
    position: Seq<char>,
    yaw: Seq<char>,
    pitch: Seq<char>,
    light: Option<LightLevels>,
    day: Seq<char>,
    received_time: bool,
)
    ensures
        ({
            let line = monitor_text(position, yaw, pitch, light, day, received_time);
            let clock = if received_time {
                "packet clock"@
            } else {
                "initial noon fallback"@
            };
            &&& line.subrange(9, 9 + position.len() as int) == position
            &&& line.subrange(line.len() - 1 - clock.len(), line.len() - 1) == clock
        }),
{
    reveal_strlit("position ");
    reveal_strlit(")");
    assert("position "@.len() == 9);
    assert(")"@.len() == 1);
    let line = monitor_text(position, yaw, pitch, light, day, received_time);
    let clock = clock_text(received_time);
    assert(line.subrange(9, 9 + position.len() as int) =~= position);
    assert(line.subrange(line.len() - 1 - clock.len(), line.len() - 1) =~= clock);
}

} // verus!
