//! Traversal of the voxel grid along a view ray.
//!
//! A ray is given by the cell it starts in and, for each axis, the direction
//! in which it crosses the cell borders and the distances of those crossings
//! within its reach. Merging the three lists in order of distance yields the
//! cells that the ray visits, in the manner of Amanatides & Woo.
use vstd::prelude::*;

use crate::grid::{has_neighbor, neighbor, Block, BlockPos, BlockSource, Face, Voxel};
use crate::palette::{appearance_of, block_appearance, translucent};

verus! {

/// The most translucent surfaces that one ray collects.
pub const MAX_TRANSLUCENT_LAYERS: usize = 4;

/// A distance in blocks, as an integer that orders as the distances do: equal
/// distances have equal keys, and a smaller distance has a smaller key.
///
/// The key is derived from the bit pattern of an IEEE 754 binary64 number:
/// patterns of nonnegative numbers keep their value, those of negative
/// numbers count downwards from the key of zero, which both zeros share.
#[derive(Clone, Copy, Debug, PartialEq, Eq, Structural)]
pub struct Distance {
    pub key: i64,
}

/// The key of a binary64 bit pattern.
pub open spec fn key_of_bits(bits: u64) -> int {
    if bits < 0x8000_0000_0000_0000 {
        bits as int
    } else {
        0x8000_0000_0000_0000 - bits
    }
}

impl Distance {
    /// The distance with the given binary64 bit pattern.
    pub fn from_bits(bits: u64) -> (distance: Self)
        ensures
            distance.key == key_of_bits(bits),
            distance.key > i64::MIN,
    {
        if bits < 0x8000_0000_0000_0000 {
            Distance { key: bits as i64 }
        } else {
            Distance { key: (0x8000_0000_0000_0000 - bits as i128) as i64 }
        }
    }

    /// The binary64 bit pattern of this distance. Zero has the pattern of the
    /// positive zero.
    pub fn to_bits(self) -> (bits: u64)
        requires
            self.key > i64::MIN,
        ensures
            key_of_bits(bits) == self.key,
            bits != 0x8000_0000_0000_0000,
    {
        if self.key >= 0 {
            self.key as u64
        } else {
            (0x8000_0000_0000_0000 - self.key as i128) as u64
        }
    }
}

/// The crossings of cell borders along one axis.
#[derive(Clone, Debug)]
pub struct AxisCrossings {
    /// How the coordinate changes at a crossing: 1, -1, or 0 for a ray that
    /// runs parallel to the borders of this axis.
    pub step: i32,
    /// The distances of the crossings within reach, nearest first.
    pub sides: Vec<Distance>,
}

/// A view ray, cut off at its reach.
#[derive(Clone, Debug)]
pub struct Ray {
    pub start: BlockPos,
    pub x: AxisCrossings,
    pub y: AxisCrossings,
    pub z: AxisCrossings,
}

/// A coordinate axis.
#[derive(Clone, Copy, Debug, PartialEq, Eq, Structural)]
pub enum Axis {
    X,
    Y,
    Z,
}

/// How many crossings of each axis have been taken.
pub struct Taken {
    pub x: nat,
    pub y: nat,
    pub z: nat,
}

/// A cell on the way of a ray.
pub struct Visit {
    pub position: BlockPos,
    pub distance: Distance,
    pub entered_face: Option<Face>,
}

/// How far `count` crossings move a coordinate.
pub open spec fn displacement(step: i32, count: nat) -> int {
    if step > 0 {
        count as int
    } else if step < 0 {
        -(count as int)
    } else {
        0
    }
}

/// Whether an axis is usable from a starting coordinate: its step is one cell
/// or none, and its last crossing stays among the coordinates of blocks.
pub open spec fn axis_fits(axis: AxisCrossings, start: i32) -> bool {
    &&& -1 <= axis.step <= 1
    &&& axis.step == 0 ==> axis.sides@.len() == 0
    &&& i32::MIN <= start + displacement(axis.step, axis.sides@.len()) <= i32::MAX
}

/// Whether a ray is usable.
pub open spec fn ray_fits(ray: Ray) -> bool {
    &&& axis_fits(ray.x, ray.start.x)
    &&& axis_fits(ray.y, ray.start.y)
    &&& axis_fits(ray.z, ray.start.z)
}

/// The number of crossings of a ray.
pub open spec fn crossings(ray: Ray) -> nat {
    ray.x.sides@.len() + ray.y.sides@.len() + ray.z.sides@.len()
}

/// The distance of the next crossing of an axis, if one is left.
pub open spec fn next_side(axis: AxisCrossings, taken: nat) -> Option<Distance> {
    if taken < axis.sides@.len() {
        Some(axis.sides@[taken as int])
    } else {
        None
    }
}

/// Whether crossing `a` exists and is due no later than crossing `b`.
pub open spec fn due_first(a: Option<Distance>, b: Option<Distance>) -> bool {
    match (a, b) {
        (Some(a), Some(b)) => a.key <= b.key,
        (Some(_), None) => true,
        (None, _) => false,
    }
}

/// The axis of the next crossing: the nearest one, and of equally near ones
/// the first of x, y and z.
pub open spec fn next_axis(ray: Ray, taken: Taken) -> Option<Axis> {
    let x = next_side(ray.x, taken.x);
    let y = next_side(ray.y, taken.y);
    let z = next_side(ray.z, taken.z);
    if due_first(x, y) && due_first(x, z) {
        Some(Axis::X)
    } else if due_first(y, z) {
        Some(Axis::Y)
    } else if z is Some {
        Some(Axis::Z)
    } else {
        None
    }
}

/// The crossings taken once the next one is taken.
pub open spec fn take_next(ray: Ray, taken: Taken) -> Taken {
    match next_axis(ray, taken) {
        Some(Axis::X) => Taken { x: taken.x + 1, ..taken },
        Some(Axis::Y) => Taken { y: taken.y + 1, ..taken },
        Some(Axis::Z) => Taken { z: taken.z + 1, ..taken },
        None => taken,
    }
}

/// The crossings of each axis among the first `n` of a ray.
pub open spec fn taken_after(ray: Ray, n: nat) -> Taken
    decreases n,
{
    if n == 0 {
        Taken { x: 0, y: 0, z: 0 }
    } else {
        take_next(ray, taken_after(ray, (n - 1) as nat))
    }
}

/// The cell reached after the given crossings.
pub open spec fn cell_after(ray: Ray, taken: Taken) -> BlockPos {
    BlockPos {
        x: (ray.start.x + displacement(ray.x.step, taken.x)) as i32,
        y: (ray.start.y + displacement(ray.y.step, taken.y)) as i32,
        z: (ray.start.z + displacement(ray.z.step, taken.z)) as i32,
    }
}

/// The distance of the next crossing.
pub open spec fn next_distance(ray: Ray, taken: Taken) -> Distance {
    match next_axis(ray, taken) {
        Some(Axis::X) => ray.x.sides@[taken.x as int],
        Some(Axis::Y) => ray.y.sides@[taken.y as int],
        _ => ray.z.sides@[taken.z as int],
    }
}

/// The face through which the next crossing enters its cell.
pub open spec fn next_face(ray: Ray, taken: Taken) -> Face {
    match next_axis(ray, taken) {
        Some(Axis::X) => if ray.x.step > 0 {
            Face::West
        } else {
            Face::East
        },
        Some(Axis::Y) => if ray.y.step > 0 {
            Face::Bottom
        } else {
            Face::Top
        },
        _ => if ray.z.step > 0 {
            Face::North
        } else {
            Face::South
        },
    }
}

/// The cell visited after `n` crossings. The starting cell is entered through
/// no face, at distance zero.
pub open spec fn visit(ray: Ray, n: nat) -> Visit {
    if n == 0 {
        Visit { position: ray.start, distance: Distance { key: 0 }, entered_face: None }
    } else {
        let before = taken_after(ray, (n - 1) as nat);
        Visit {
            position: cell_after(ray, taken_after(ray, n)),
            distance: next_distance(ray, before),
            entered_face: Some(next_face(ray, before)),
        }
    }
}

/// A first solid voxel intersected by a ray.
#[derive(Clone, Copy, Debug, PartialEq, Eq)]
pub struct RayHit {
    pub position: BlockPos,
    pub distance: Distance,
    pub block: Block,
    /// `None` means the ray started inside the block.
    pub entered_face: Option<Face>,
}

/// The result of traversing the locally loaded voxel grid.
#[derive(Clone, Copy, Debug, PartialEq, Eq)]
pub enum RayResult {
    Hit(RayHit),
    Miss,
    /// Traversal reached an unloaded chunk before a hit or the distance limit.
    Unloaded { position: BlockPos, distance: Distance },
}

/// The hit of a block on a visited cell.
pub open spec fn hit_on(visit: Visit, block: Block) -> RayHit {
    RayHit {
        position: visit.position,
        distance: visit.distance,
        block,
        entered_face: visit.entered_face,
    }
}

/// What stands on the cell visited after `n` crossings.
pub open spec fn voxel_on<S: BlockSource>(source: &S, ray: Ray, n: nat) -> Voxel {
    source.voxel(visit(ray, n).position)
}

/// Whether the cell visited after `n` crossings is the first that is not air.
pub open spec fn stops_at<S: BlockSource>(source: &S, ray: Ray, n: nat) -> bool {
    &&& n <= crossings(ray)
    &&& voxel_on(source, ray, n) != Voxel::Air
    &&& forall|m: nat| m < n ==> #[trigger] voxel_on(source, ray, m) == Voxel::Air
}

/// Whether `result` is what a ray meets first in a world.
pub open spec fn is_raycast<S: BlockSource>(source: &S, ray: Ray, result: RayResult) -> bool {
    match result {
        RayResult::Hit(hit) => exists|n: nat|
            #![trigger stops_at(source, ray, n)]
            stops_at(source, ray, n) && voxel_on(source, ray, n) == Voxel::Solid(hit.block) && hit
                == hit_on(visit(ray, n), hit.block),
        RayResult::Unloaded { position, distance } => exists|n: nat|
            #![trigger stops_at(source, ray, n)]
            stops_at(source, ray, n) && voxel_on(source, ray, n) == Voxel::Unloaded && position
                == visit(ray, n).position && distance == visit(ray, n).distance,
        RayResult::Miss => forall|n: nat|
            n <= crossings(ray) ==> #[trigger] voxel_on(source, ray, n) == Voxel::Air,
    }
}

/// A place on the way of a ray: the current cell and the crossings taken.
struct Walk {
    position: BlockPos,
    x: usize,
    y: usize,
    z: usize,
}

spec fn walk_taken(walk: Walk) -> Taken {
    Taken { x: walk.x as nat, y: walk.y as nat, z: walk.z as nat }
}

/// Whether no more crossings were taken than a ray has.
pub open spec fn within(ray: Ray, taken: Taken) -> bool {
    &&& taken.x <= ray.x.sides@.len()
    &&& taken.y <= ray.y.sides@.len()
    &&& taken.z <= ray.z.sides@.len()
}

/// The first `n` crossings of a ray are `n` of its crossings.
proof fn lemma_taken(ray: Ray, n: nat)
    requires
        n <= crossings(ray),
    ensures
        within(ray, taken_after(ray, n)),
        ({
            let taken = taken_after(ray, n);
            taken.x + taken.y + taken.z == n
        }),
        next_axis(ray, taken_after(ray, n)) is None <==> n == crossings(ray),
    decreases n,
{
    if n > 0 {
        lemma_taken(ray, (n - 1) as nat);
    }
}

/// Whether a crossing is due no later than another one.
fn is_due_first(a: Option<Distance>, b: Option<Distance>) -> (first: bool)
    ensures
        first == due_first(a, b),
{
    match (a, b) {
        (Some(a), Some(b)) => a.key <= b.key,
        (Some(_), None) => true,
        (None, _) => false,
    }
}

fn side_after(axis: &AxisCrossings, taken: usize) -> (side: Option<Distance>)
    ensures
        side == next_side(*axis, taken as nat),
{
    if taken < axis.sides.len() {
        Some(axis.sides[taken])
    } else {
        None
    }
}

/// Takes the next crossing of a ray, if one is left.
fn advance(ray: &Ray, walk: &mut Walk) -> (entry: Option<(Distance, Face)>)
    requires
        ray_fits(*ray),
        within(*ray, walk_taken(*old(walk))),
        old(walk).position == cell_after(*ray, walk_taken(*old(walk))),
    ensures
        within(*ray, walk_taken(*final(walk))),
        walk_taken(*final(walk)) == take_next(*ray, walk_taken(*old(walk))),
        final(walk).position == cell_after(*ray, walk_taken(*final(walk))),
        match entry {
            Some((distance, face)) => {
                &&& next_axis(*ray, walk_taken(*old(walk))) is Some
                &&& distance == next_distance(*ray, walk_taken(*old(walk)))
                &&& face == next_face(*ray, walk_taken(*old(walk)))
            },
            None => next_axis(*ray, walk_taken(*old(walk))) is None,
        },
{
    let side_x = side_after(&ray.x, walk.x);
    let side_y = side_after(&ray.y, walk.y);
    let side_z = side_after(&ray.z, walk.z);
    if is_due_first(side_x, side_y) && is_due_first(side_x, side_z) {
        let distance = ray.x.sides[walk.x];
        walk.position.x = walk.position.x + ray.x.step;
        walk.x = walk.x + 1;
        Some((distance, if ray.x.step > 0 {
            Face::West
        } else {
            Face::East
        }))
    } else if is_due_first(side_y, side_z) {
        let distance = ray.y.sides[walk.y];
        walk.position.y = walk.position.y + ray.y.step;
        walk.y = walk.y + 1;
        Some((distance, if ray.y.step > 0 {
            Face::Bottom
        } else {
            Face::Top
        }))
    } else if walk.z < ray.z.sides.len() {
        let distance = ray.z.sides[walk.z];
        walk.position.z = walk.position.z + ray.z.step;
        walk.z = walk.z + 1;
        Some((distance, if ray.z.step > 0 {
            Face::North
        } else {
            Face::South
        }))
    } else {
        None
    }
}

/// The ray behind a reference.
pub open spec fn ray_behind(ray: Option<&Ray>) -> Option<Ray> {
    match ray {
        Some(ray) => Some(*ray),
        None => None,
    }
}

/// Whether a ray, if there is one, is usable.
pub open spec fn optional_ray_fits(ray: Option<Ray>) -> bool {
    match ray {
        Some(ray) => ray_fits(ray),
        None => true,
    }
}

/// Whether `result` is what a ray meets first in a world. Where the direction
/// or the reach admits no ray, nothing is met.
pub open spec fn is_cast<S: BlockSource>(source: &S, ray: Option<Ray>, result: RayResult) -> bool {
    match ray {
        Some(ray) => is_raycast(source, ray, result),
        None => result == RayResult::Miss,
    }
}

/// Finds what a ray meets first: a solid block, an unloaded cell, or nothing
/// within its reach. There is no ray for a direction of no length, or for a
/// reach that is negative or not finite.
pub fn raycast<S: BlockSource>(source: &S, ray: Option<&Ray>) -> (result: RayResult)
    requires
        optional_ray_fits(ray_behind(ray)),
    ensures
        is_cast(source, ray_behind(ray), result),
{
    match ray {
        Some(ray) => first_met(source, ray),
        None => RayResult::Miss,
    }
}

/// Finds what a ray meets first.
fn first_met<S: BlockSource>(source: &S, ray: &Ray) -> (result: RayResult)
    requires
        ray_fits(*ray),
    ensures
        is_raycast(source, *ray, result),
{
    let mut walk = Walk { position: ray.start, x: 0, y: 0, z: 0 };
    let mut distance = Distance { key: 0 };
    let mut entered_face: Option<Face> = None;
    let ghost mut n: nat = 0;
    loop
        invariant
            ray_fits(*ray),
            n <= crossings(*ray),
            walk_taken(walk) == taken_after(*ray, n),
            within(*ray, walk_taken(walk)),
            walk.position == cell_after(*ray, walk_taken(walk)),
            walk.position == visit(*ray, n).position,
            distance == visit(*ray, n).distance,
            entered_face == visit(*ray, n).entered_face,
            forall|m: nat| m < n ==> #[trigger] voxel_on(source, *ray, m) == Voxel::Air,
        decreases crossings(*ray) - n,
    {
        match source.voxel_at(walk.position) {
            Voxel::Solid(block) => {
                assert(stops_at(source, *ray, n));
                return RayResult::Hit(
                    RayHit { position: walk.position, distance, block, entered_face },
                );
            },
            Voxel::Unloaded => {
                assert(stops_at(source, *ray, n));
                return RayResult::Unloaded { position: walk.position, distance };
            },
            Voxel::Air => {},
        }
        assert(voxel_on(source, *ray, n) == Voxel::Air);
        proof {
            lemma_taken(*ray, n);
        }
        match advance(ray, &mut walk) {
            None => {
                return RayResult::Miss;
            },
            Some((next, face)) => {
                distance = next;
                entered_face = Some(face);
                proof {
                    n = n + 1;
                }
            },
        }
    }
}

/// What ends the way of a view ray through translucent surfaces.
#[derive(Clone, Copy, Debug, PartialEq, Eq)]
pub enum RayTerminal {
    Opaque(RayHit),
    Miss,
    Unloaded { distance: Distance },
    LayerLimit,
}

/// The surfaces that a view ray shows: translucent layers, nearest first, and
/// what ends the ray behind them.
#[derive(Clone, Debug)]
pub struct SceneTrace {
    pub layers: Vec<RayHit>,
    pub terminal: RayTerminal,
}

/// Whether a ray continues behind a block.
pub open spec fn see_through(block: Block) -> bool {
    translucent(appearance_of(block.id@))
}

/// The translucent surface on the cell visited after `n` crossings, if there
/// is one.
pub open spec fn layer_on<S: BlockSource>(source: &S, ray: Ray, n: nat) -> Option<RayHit> {
    match voxel_on(source, ray, n) {
        Voxel::Solid(block) => if see_through(block) {
            Some(hit_on(visit(ray, n), block))
        } else {
            None
        },
        _ => None,
    }
}

/// The translucent surfaces on the first `n` visited cells.
pub open spec fn layers_before<S: BlockSource>(source: &S, ray: Ray, n: nat) -> Seq<RayHit>
    decreases n,
{
    if n == 0 {
        Seq::empty()
    } else {
        let earlier = layers_before(source, ray, (n - 1) as nat);
        match layer_on(source, ray, (n - 1) as nat) {
            Some(hit) => earlier.push(hit),
            None => earlier,
        }
    }
}

/// What ends a view ray on the cell visited after `n` crossings, if the cell
/// ends it: an opaque block, an unloaded cell, or one layer too many.
pub open spec fn terminal_on<S: BlockSource>(source: &S, ray: Ray, n: nat) -> Option<RayTerminal> {
    match voxel_on(source, ray, n) {
        Voxel::Air => None,
        Voxel::Unloaded => Some(RayTerminal::Unloaded { distance: visit(ray, n).distance }),
        Voxel::Solid(block) => if !see_through(block) {
            Some(RayTerminal::Opaque(hit_on(visit(ray, n), block)))
        } else if layers_before(source, ray, n).len() == MAX_TRANSLUCENT_LAYERS {
            Some(RayTerminal::LayerLimit)
        } else {
            None
        },
    }
}

/// Whether a view ray passes the first `n` visited cells.
pub open spec fn passes<S: BlockSource>(source: &S, ray: Ray, n: nat) -> bool {
    forall|m: nat| m < n ==> (#[trigger] terminal_on(source, ray, m)) is None
}

/// Whether a view ray ends on the cell visited after `n` crossings.
pub open spec fn ends_at<S: BlockSource>(source: &S, ray: Ray, n: nat) -> bool {
    &&& n <= crossings(ray)
    &&& terminal_on(source, ray, n) is Some
    &&& passes(source, ray, n)
}

/// Whether `scene` is what a view ray shows of a world.
pub open spec fn is_scene<S: BlockSource>(source: &S, ray: Ray, scene: SceneTrace) -> bool {
    if passes(source, ray, crossings(ray) + 1) {
        &&& scene.terminal == RayTerminal::Miss
        &&& scene.layers@ == layers_before(source, ray, crossings(ray) + 1)
    } else {
        exists|n: nat| #[trigger]
            ends_at(source, ray, n) && terminal_on(source, ray, n) == Some(scene.terminal)
                && scene.layers@ == layers_before(source, ray, n)
    }
}

/// Looks at one visited cell: collects its translucent surface, or says what
/// ends the ray there.
fn trace_voxel<S: BlockSource>(
    source: &S,
    position: BlockPos,
    distance: Distance,
    entered_face: Option<Face>,
    layers: &mut Vec<RayHit>,
) -> (terminal: Option<RayTerminal>)
    ensures
        ({
            let here = Visit { position, distance, entered_face };
            match source.voxel(position) {
                Voxel::Air => terminal is None && final(layers)@ == old(layers)@,
                Voxel::Unloaded => terminal == Some(RayTerminal::Unloaded { distance })
                    && final(layers)@ == old(layers)@,
                Voxel::Solid(block) => if !see_through(block) {
                    terminal == Some(RayTerminal::Opaque(hit_on(here, block)))
                        && final(layers)@ == old(layers)@
                } else if old(layers)@.len() == MAX_TRANSLUCENT_LAYERS {
                    terminal == Some(RayTerminal::LayerLimit) && final(layers)@ == old(layers)@
                } else {
                    terminal is None && final(layers)@ == old(layers)@.push(hit_on(here, block))
                },
            }
        }),
{
    match source.voxel_at(position) {
        Voxel::Air => None,
        Voxel::Unloaded => Some(RayTerminal::Unloaded { distance }),
        Voxel::Solid(block) => {
            let hit = RayHit { position, distance, block, entered_face };
            if block_appearance(block.id).is_translucent() {
                if layers.len() == MAX_TRANSLUCENT_LAYERS {
                    Some(RayTerminal::LayerLimit)
                } else {
                    layers.push(hit);
                    None
                }
            } else {
                Some(RayTerminal::Opaque(hit))
            }
        },
    }
}

/// Whether `scene` is what a view ray shows of a world. Where the direction or
/// the reach admits no ray, nothing is shown.
pub open spec fn is_traced<S: BlockSource>(source: &S, ray: Option<Ray>, scene: SceneTrace) -> bool {
    match ray {
        Some(ray) => is_scene(source, ray, scene),
        None => scene.terminal == RayTerminal::Miss && scene.layers@.len() == 0,
    }
}

/// Follows a view ray through translucent surfaces to what ends it. There is
/// no ray for a direction of no length, or for a reach that is negative or not
/// finite.
pub fn trace_scene<S: BlockSource>(source: &S, ray: Option<&Ray>) -> (scene: SceneTrace)
    requires
        optional_ray_fits(ray_behind(ray)),
    ensures
        is_traced(source, ray_behind(ray), scene),
{
    match ray {
        Some(ray) => follow(source, ray),
        None => SceneTrace { layers: Vec::new(), terminal: RayTerminal::Miss },
    }
}

/// Follows a view ray through translucent surfaces to what ends it.
fn follow<S: BlockSource>(source: &S, ray: &Ray) -> (scene: SceneTrace)
    requires
        ray_fits(*ray),
    ensures
        is_scene(source, *ray, scene),
{
    let mut layers: Vec<RayHit> = Vec::new();
    let mut walk = Walk { position: ray.start, x: 0, y: 0, z: 0 };
    let mut distance = Distance { key: 0 };
    let mut entered_face: Option<Face> = None;
    let ghost mut n: nat = 0;
    loop
        invariant
            ray_fits(*ray),
            n <= crossings(*ray),
            walk_taken(walk) == taken_after(*ray, n),
            within(*ray, walk_taken(walk)),
            walk.position == cell_after(*ray, walk_taken(walk)),
            walk.position == visit(*ray, n).position,
            distance == visit(*ray, n).distance,
            entered_face == visit(*ray, n).entered_face,
            layers@ == layers_before(source, *ray, n),
            passes(source, *ray, n),
        decreases crossings(*ray) - n,
    {
        match trace_voxel(source, walk.position, distance, entered_face, &mut layers) {
            Some(terminal) => {
                assert(terminal_on(source, *ray, n) == Some(terminal));
                assert(ends_at(source, *ray, n));
                return SceneTrace { layers, terminal };
            },
            None => {},
        }
        assert(terminal_on(source, *ray, n) is None);
        assert(layers@ == layers_before(source, *ray, n + 1));
        assert(passes(source, *ray, n + 1));
        proof {
            lemma_taken(*ray, n);
        }
        match advance(ray, &mut walk) {
            None => {
                return SceneTrace { layers, terminal: RayTerminal::Miss };
            },
            Some((next, face)) => {
                distance = next;
                entered_face = Some(face);
                proof {
                    n = n + 1;
                }
            },
        }
    }
}

/// Only the two zeros share a key, so that any other distance is read back
/// with the bit pattern it was made from; keys order nonnegative patterns
/// upwards, negative ones downwards and below all nonnegative ones.
pub proof fn law_distance_keys(a: u64, b: u64)
    ensures
        key_of_bits(a) == key_of_bits(b) <==> a == b || (key_of_bits(a) == 0 && key_of_bits(b) == 0),
        key_of_bits(a) == 0 <==> a == 0 || a == 0x8000_0000_0000_0000,
        i64::MIN < key_of_bits(a) <= i64::MAX,
        a < b < 0x8000_0000_0000_0000 ==> key_of_bits(a) < key_of_bits(b),
        0x8000_0000_0000_0000 <= a < b ==> key_of_bits(b) < key_of_bits(a),
        b < 0x8000_0000_0000_0000 < a ==> key_of_bits(a) < key_of_bits(b),
{
}

/// A ray moves from cell to cell through shared faces: behind the face through
/// which it enters a cell lies the cell that it comes from. So no cell on a
/// diagonal is skipped.
pub proof fn law_walk_is_connected(ray: Ray, n: nat)
    requires
        ray_fits(ray),
        n < crossings(ray),
    ensures
        ({
            let next = visit(ray, n + 1);
            &&& next.entered_face is Some
            &&& has_neighbor(next.entered_face->0, next.position)
            &&& neighbor(next.entered_face->0, next.position) == visit(ray, n).position
        }),
{
    lemma_taken(ray, n);
    lemma_taken(ray, n + 1);
    assert(visit(ray, n).position == cell_after(ray, taken_after(ray, n)));
}

/// Whether the crossings of an axis are listed nearest first and none lies
/// behind the start.
pub open spec fn ascending(axis: AxisCrossings) -> bool {
    &&& forall|i: int, j: int|
        0 <= i <= j < axis.sides@.len() ==> (#[trigger] axis.sides@[i]).key <= (
        #[trigger] axis.sides@[j]).key
    &&& forall|i: int| 0 <= i < axis.sides@.len() ==> 0 <= (#[trigger] axis.sides@[i]).key
}

/// A ray visits its cells in order of distance.
pub proof fn law_distances_ascend(ray: Ray, m: nat, n: nat)
    requires
        ascending(ray.x),
        ascending(ray.y),
        ascending(ray.z),
        m <= n <= crossings(ray),
    ensures
        0 <= visit(ray, m).distance.key <= visit(ray, n).distance.key,
    decreases n,
{
    if n == 0 {
    } else if m == n {
        lemma_taken(ray, (n - 1) as nat);
    } else {
        law_distances_ascend(ray, m, (n - 1) as nat);
        lemma_taken(ray, (n - 1) as nat);
        if n >= 2 {
            lemma_taken(ray, (n - 2) as nat);
        }
    }
}

/// A ray takes every one of its crossings: it ends as far along each axis as
/// that axis has crossings.
pub proof fn law_every_crossing_is_taken(ray: Ray)
    ensures
        taken_after(ray, crossings(ray)) == (Taken {
            x: ray.x.sides@.len(),
            y: ray.y.sides@.len(),
            z: ray.z.sides@.len(),
        }),
{
    lemma_taken(ray, crossings(ray));
}

/// Only one result is what a ray meets first.
pub proof fn law_raycast_is_unique<S: BlockSource>(
    source: &S,
    ray: Ray,
    a: RayResult,
    b: RayResult,
)
    requires
        is_raycast(source, ray, a),
        is_raycast(source, ray, b),
    ensures
        a == b,
{
    assert forall|m: nat, n: nat|
        #[trigger] stops_at(source, ray, m) && #[trigger] stops_at(source, ray, n) implies m
        == n by {
        if m < n {
            assert(voxel_on(source, ray, m) == Voxel::Air);
        }
        if n < m {
            assert(voxel_on(source, ray, n) == Voxel::Air);
        }
    }
}

/// Unloaded space is never taken for open sky: where the first cell that is
/// not air is unloaded, the ray reports that cell.
pub proof fn law_unloaded_space_is_reported<S: BlockSource>(
    source: &S,
    ray: Ray,
    n: nat,
    result: RayResult,
    scene: SceneTrace,
)
    requires
        stops_at(source, ray, n),
        voxel_on(source, ray, n) == Voxel::Unloaded,
        is_raycast(source, ray, result),
        is_scene(source, ray, scene),
    ensures
        result == (RayResult::Unloaded {
            position: visit(ray, n).position,
            distance: visit(ray, n).distance,
        }),
        scene.terminal == (RayTerminal::Unloaded { distance: visit(ray, n).distance }),
        scene.layers@.len() == 0,
{
    let expected = RayResult::Unloaded {
        position: visit(ray, n).position,
        distance: visit(ray, n).distance,
    };
    assert(is_raycast(source, ray, expected));
    law_raycast_is_unique(source, ray, result, expected);
    lemma_air_shows_nothing(source, ray, n);
    lemma_scene_ends(source, ray, scene, n);
}

/// The sky is seen only through clear space: where a view ray ends in the sky,
/// it met neither unloaded space nor an opaque block within its reach.
pub proof fn law_sky_is_seen_through_clear_space<S: BlockSource>(
    source: &S,
    ray: Ray,
    scene: SceneTrace,
    n: nat,
)
    requires
        is_scene(source, ray, scene),
        scene.terminal == RayTerminal::Miss,
        n <= crossings(ray),
    ensures
        match voxel_on(source, ray, n) {
            Voxel::Air => true,
            Voxel::Solid(block) => see_through(block),
            Voxel::Unloaded => false,
        },
{
    assert(passes(source, ray, crossings(ray) + 1));
    assert(terminal_on(source, ray, n) is None);
}

/// Cells of air neither end a view ray nor add a layer.
proof fn lemma_air_shows_nothing<S: BlockSource>(source: &S, ray: Ray, n: nat)
    requires
        forall|m: nat| m < n ==> #[trigger] voxel_on(source, ray, m) == Voxel::Air,
    ensures
        passes(source, ray, n),
        layers_before(source, ray, n).len() == 0,
    decreases n,
{
    if n > 0 {
        lemma_air_shows_nothing(source, ray, (n - 1) as nat);
        assert(voxel_on(source, ray, (n - 1) as nat) == Voxel::Air);
    }
    assert forall|m: nat| m < n implies (#[trigger] terminal_on(source, ray, m)) is None by {
        assert(voxel_on(source, ray, m) == Voxel::Air);
    }
}

/// A view ray ends on the first cell that ends it.
proof fn lemma_scene_ends<S: BlockSource>(source: &S, ray: Ray, scene: SceneTrace, n: nat)
    requires
        ends_at(source, ray, n),
        is_scene(source, ray, scene),
    ensures
        terminal_on(source, ray, n) == Some(scene.terminal),
        scene.layers@ == layers_before(source, ray, n),
{
    assert(terminal_on(source, ray, n) is Some);
    let k = choose|k: nat| #[trigger]
        ends_at(source, ray, k) && terminal_on(source, ray, k) == Some(scene.terminal)
            && scene.layers@ == layers_before(source, ray, k);
    if k < n {
        assert(terminal_on(source, ray, k) is None);
    }
    if n < k {
        assert(terminal_on(source, ray, n) is None);
    }
}

/// A view ray shows only one scene of a world.
pub proof fn law_scene_is_unique<S: BlockSource>(
    source: &S,
    ray: Ray,
    a: SceneTrace,
    b: SceneTrace,
)
    requires
        is_scene(source, ray, a),
        is_scene(source, ray, b),
    ensures
        a.terminal == b.terminal,
        a.layers@ == b.layers@,
{
    if !passes(source, ray, crossings(ray) + 1) {
        let n = choose|n: nat| #[trigger]
            ends_at(source, ray, n) && terminal_on(source, ray, n) == Some(a.terminal)
                && a.layers@ == layers_before(source, ray, n);
        lemma_scene_ends(source, ray, b, n);
    }
}

/// The layers that a view ray has collected while it passes: never more than
/// it may hold, all translucent, and the first of them on the first cell that
/// is not air.
proof fn lemma_collected_layers<S: BlockSource>(source: &S, ray: Ray, n: nat)
    requires
        passes(source, ray, n),
        n <= crossings(ray) + 1,
    ensures
        layers_before(source, ray, n).len() <= MAX_TRANSLUCENT_LAYERS,
        forall|i: int|
            0 <= i < layers_before(source, ray, n).len() ==> see_through(
                (#[trigger] layers_before(source, ray, n)[i]).block,
            ),
        layers_before(source, ray, n).len() == 0 ==> forall|m: nat|
            m < n ==> #[trigger] voxel_on(source, ray, m) == Voxel::Air,
        layers_before(source, ray, n).len() > 0 ==> is_raycast(
            source,
            ray,
            RayResult::Hit(layers_before(source, ray, n)[0]),
        ),
    decreases n,
{
    if n > 0 {
        let before = (n - 1) as nat;
        assert(passes(source, ray, before)) by {
            assert forall|m: nat| m < before implies (#[trigger] terminal_on(
                source,
                ray,
                m,
            )) is None by {}
        }
        lemma_collected_layers(source, ray, before);
        assert(terminal_on(source, ray, before) is None);
        if layers_before(source, ray, before).len() == 0 && voxel_on(source, ray, before)
            != Voxel::Air {
            assert(stops_at(source, ray, before));
        }
    }
}

/// A view ray shows at most four translucent layers, all of them translucent;
/// it ends on an opaque block unless it runs out, reaches unloaded space, or
/// meets a fifth layer.
pub proof fn law_scene_layers<S: BlockSource>(source: &S, ray: Ray, scene: SceneTrace)
    requires
        is_scene(source, ray, scene),
    ensures
        scene.layers@.len() <= MAX_TRANSLUCENT_LAYERS,
        forall|i: int|
            0 <= i < scene.layers@.len() ==> see_through((#[trigger] scene.layers@[i]).block),
        match scene.terminal {
            RayTerminal::Opaque(hit) => !see_through(hit.block),
            RayTerminal::LayerLimit => scene.layers@.len() == MAX_TRANSLUCENT_LAYERS,
            _ => true,
        },
{
    if passes(source, ray, crossings(ray) + 1) {
        lemma_collected_layers(source, ray, crossings(ray) + 1);
    } else {
        let n = choose|n: nat| #[trigger]
            ends_at(source, ray, n) && terminal_on(source, ray, n) == Some(scene.terminal)
                && scene.layers@ == layers_before(source, ray, n);
        lemma_collected_layers(source, ray, n);
    }
}

/// The layers that a view ray collects among its first cells are no nearer
/// than those before them, and no farther than the last of these cells.
proof fn lemma_layers_ascend<S: BlockSource>(source: &S, ray: Ray, n: nat)
    requires
        ascending(ray.x),
        ascending(ray.y),
        ascending(ray.z),
        n <= crossings(ray) + 1,
    ensures
        ({
            let layers = layers_before(source, ray, n);
            &&& forall|i: int, j: int|
                0 <= i <= j < layers.len() ==> (#[trigger] layers[i]).distance.key <= (
                #[trigger] layers[j]).distance.key
            &&& forall|i: int|
                0 <= i < layers.len() ==> n > 0 && (#[trigger] layers[i]).distance.key <= visit(
                    ray,
                    (n - 1) as nat,
                ).distance.key
        }),
    decreases n,
{
    if n > 0 {
        let before = (n - 1) as nat;
        lemma_layers_ascend(source, ray, before);
        if n > 1 {
            law_distances_ascend(ray, (n - 2) as nat, before);
        }
        let earlier = layers_before(source, ray, before);
        let layers = layers_before(source, ray, n);
        assert forall|i: int| 0 <= i < layers.len() implies (#[trigger] layers[i]).distance.key
            <= visit(ray, before).distance.key by {
            if i < earlier.len() {
                assert(layers[i] == earlier[i]);
            }
        }
        assert forall|i: int, j: int| 0 <= i <= j < layers.len() implies (
        #[trigger] layers[i]).distance.key <= (#[trigger] layers[j]).distance.key by {
            if j < earlier.len() {
                assert(layers[i] == earlier[i] && layers[j] == earlier[j]);
            } else {
                assert(layers[j].distance == visit(ray, before).distance);
            }
        }
    }
}

/// A view ray lists its layers in order of distance, and what ends it lies no
/// nearer than any of them.
pub proof fn law_layers_ascend<S: BlockSource>(source: &S, ray: Ray, scene: SceneTrace)
    requires
        ascending(ray.x),
        ascending(ray.y),
        ascending(ray.z),
        is_scene(source, ray, scene),
    ensures
        forall|i: int, j: int|
            0 <= i <= j < scene.layers@.len() ==> (#[trigger] scene.layers@[i]).distance.key <= (
            #[trigger] scene.layers@[j]).distance.key,
        forall|i: int|
            0 <= i < scene.layers@.len() ==> match scene.terminal {
                RayTerminal::Opaque(hit) => (#[trigger] scene.layers@[i]).distance.key
                    <= hit.distance.key,
                RayTerminal::Unloaded { distance } => scene.layers@[i].distance.key <= distance.key,
                _ => true,
            },
{
    if passes(source, ray, crossings(ray) + 1) {
        lemma_layers_ascend(source, ray, crossings(ray) + 1);
    } else {
        let n = choose|n: nat| #[trigger]
            ends_at(source, ray, n) && terminal_on(source, ray, n) == Some(scene.terminal)
                && scene.layers@ == layers_before(source, ray, n);
        lemma_layers_ascend(source, ray, n);
        if n > 0 {
            law_distances_ascend(ray, (n - 1) as nat, n);
        }
    }
}

/// A view ray and a plain ray agree on the nearest surface: the first layer,
/// or without layers the terminal, is what the plain ray meets first.
pub proof fn law_scene_begins_with_the_ray_hit<S: BlockSource>(
    source: &S,
    ray: Ray,
    scene: SceneTrace,
    result: RayResult,
)
    requires
        is_scene(source, ray, scene),
        is_raycast(source, ray, result),
    ensures
        if scene.layers@.len() > 0 {
            result == RayResult::Hit(scene.layers@[0])
        } else {
            match scene.terminal {
                RayTerminal::Opaque(hit) => result == RayResult::Hit(hit),
                RayTerminal::Miss => result == RayResult::Miss,
                RayTerminal::Unloaded { distance } => result matches RayResult::Unloaded {
                    distance: reported,
                    ..
                } && reported == distance,
                RayTerminal::LayerLimit => false,
            }
        },
{
    law_scene_layers(source, ray, scene);
    if passes(source, ray, crossings(ray) + 1) {
        lemma_collected_layers(source, ray, crossings(ray) + 1);
        if scene.layers@.len() > 0 {
            law_raycast_is_unique(source, ray, result, RayResult::Hit(scene.layers@[0]));
        } else {
            assert(is_raycast(source, ray, RayResult::Miss));
            law_raycast_is_unique(source, ray, result, RayResult::Miss);
        }
    } else {
        let n = choose|n: nat| #[trigger]
            ends_at(source, ray, n) && terminal_on(source, ray, n) == Some(scene.terminal)
                && scene.layers@ == layers_before(source, ray, n);
        lemma_collected_layers(source, ray, n);
        if scene.layers@.len() > 0 {
            law_raycast_is_unique(source, ray, result, RayResult::Hit(scene.layers@[0]));
        } else {
            assert(stops_at(source, ray, n));
            match scene.terminal {
                RayTerminal::Opaque(hit) => {
                    assert(is_raycast(source, ray, RayResult::Hit(hit)));
                    law_raycast_is_unique(source, ray, result, RayResult::Hit(hit));
                },
                RayTerminal::Unloaded { distance } => {
                    let expected = RayResult::Unloaded {
                        position: visit(ray, n).position,
                        distance,
                    };
                    assert(is_raycast(source, ray, expected));
                    law_raycast_is_unique(source, ray, result, expected);
                },
                _ => {},
            }
        }
    }
}

/// How many of the first `n` visited cells hold a block.
pub open spec fn blocks_before<S: BlockSource>(source: &S, ray: Ray, n: nat) -> nat
    decreases n,
{
    if n == 0 {
        0
    } else {
        blocks_before(source, ray, (n - 1) as nat) + if source.voxel(
            visit(ray, (n - 1) as nat).position,
        ) is Solid {
            1nat
        } else {
            0nat
        }
    }
}

/// Whether each of the first `n` visited cells is air or holds a block that
/// shows part of what is behind it.
pub open spec fn clear_before<S: BlockSource>(source: &S, ray: Ray, n: nat) -> bool {
    forall|m: nat|
        m < n ==> match #[trigger] source.voxel(visit(ray, m).position) {
            Voxel::Air => true,
            Voxel::Solid(block) => appearance_of(block.id@).opacity < 100,
            Voxel::Unloaded => false,
        }
}

/// Along clear cells with at most four blocks a view ray passes, and collects
/// one layer for each block.
proof fn lemma_clear_cells<S: BlockSource>(source: &S, ray: Ray, n: nat)
    requires
        clear_before(source, ray, n),
        blocks_before(source, ray, n) <= 4,
    ensures
        passes(source, ray, n),
        layers_before(source, ray, n).len() == blocks_before(source, ray, n),
        forall|m: nat|
            m < n && #[trigger] source.voxel(visit(ray, m).position) is Solid ==> {
                &&& blocks_before(source, ray, m) < blocks_before(source, ray, n)
                &&& layers_before(source, ray, n)[blocks_before(source, ray, m) as int] == (RayHit {
                    position: visit(ray, m).position,
                    distance: visit(ray, m).distance,
                    block: source.voxel(visit(ray, m).position)->Solid_0,
                    entered_face: visit(ray, m).entered_face,
                })
            },
    decreases n,
{
    if n > 0 {
        let last = (n - 1) as nat;
        lemma_clear_cells(source, ray, last);
        assert(source.voxel(visit(ray, last).position) != Voxel::Unloaded);
        assert(terminal_on(source, ray, last) is None);
        assert forall|m: nat| m < n implies (#[trigger] terminal_on(source, ray, m)) is None by {
            if m < last {
                assert(passes(source, ray, last));
            }
        }
        assert forall|m: nat|
            m < n && #[trigger] source.voxel(visit(ray, m).position) is Solid implies {
            &&& blocks_before(source, ray, m) < blocks_before(source, ray, n)
            &&& layers_before(source, ray, n)[blocks_before(source, ray, m) as int] == (RayHit {
                position: visit(ray, m).position,
                distance: visit(ray, m).distance,
                block: source.voxel(visit(ray, m).position)->Solid_0,
                entered_face: visit(ray, m).entered_face,
            })
        } by {
            if m < last {
                assert(source.voxel(visit(ray, m).position) is Solid);
            }
        }
    }
}

/// What stands on the first visited cell that is neither air nor translucent
/// ends the view, if at most four translucent blocks were visited before it:
/// an opaque block is seen, also right behind the fourth layer, and unloaded
/// space is reported. Only a fifth translucent block exhausts the layers, and
/// the sky is seen where there is no such cell.
pub proof fn law_first_opaque_cell_ends_the_view<S: BlockSource>(
    source: &S,
    ray: Ray,
    scene: SceneTrace,
    n: nat,
)
    requires
        is_traced(source, Some(ray), scene),
        clear_before(source, ray, n),
        blocks_before(source, ray, n) <= 4,
        n <= crossings(ray) + 1,
    ensures
        n <= crossings(ray) ==> match source.voxel(visit(ray, n).position) {
            Voxel::Solid(block) => if appearance_of(block.id@).opacity >= 100 {
                scene.terminal == RayTerminal::Opaque(
                    RayHit {
                        position: visit(ray, n).position,
                        distance: visit(ray, n).distance,
                        block,
                        entered_face: visit(ray, n).entered_face,
                    },
                ) && scene.layers@.len() == blocks_before(source, ray, n)
            } else {
                blocks_before(source, ray, n) == 4 ==> scene.terminal == RayTerminal::LayerLimit
                    && scene.layers@.len() == 4
            },
            Voxel::Unloaded => scene.terminal == (RayTerminal::Unloaded {
                distance: visit(ray, n).distance,
            }) && scene.layers@.len() == blocks_before(source, ray, n),
            Voxel::Air => true,
        },
        n == crossings(ray) + 1 ==> scene.terminal == RayTerminal::Miss && scene.layers@.len()
            == blocks_before(source, ray, n),
{
    lemma_clear_cells(source, ray, n);
    if n <= crossings(ray) && terminal_on(source, ray, n) is Some {
        assert(ends_at(source, ray, n));
        lemma_scene_ends(source, ray, scene, n);
    }
}

/// Every translucent block that a view ray visits before it ends is a layer,
/// at its place among them.
pub proof fn law_translucent_blocks_are_layers<S: BlockSource>(
    source: &S,
    ray: Ray,
    scene: SceneTrace,
    n: nat,
    block: Block,
)
    requires
        is_traced(source, Some(ray), scene),
        clear_before(source, ray, n),
        blocks_before(source, ray, n) < 4,
        n <= crossings(ray),
        source.voxel(visit(ray, n).position) == Voxel::Solid(block),
        appearance_of(block.id@).opacity < 100,
    ensures
        scene.layers@.len() > blocks_before(source, ray, n),
        scene.layers@[blocks_before(source, ray, n) as int] == (RayHit {
            position: visit(ray, n).position,
            distance: visit(ray, n).distance,
            block,
            entered_face: visit(ray, n).entered_face,
        }),
{
    assert(clear_before(source, ray, n + 1));
    lemma_clear_cells(source, ray, n + 1);
    if passes(source, ray, crossings(ray) + 1) {
        lemma_layers_stay(source, ray, n + 1, crossings(ray) + 1);
    } else {
        let k = choose|k: nat| #[trigger]
            ends_at(source, ray, k) && terminal_on(source, ray, k) == Some(scene.terminal)
                && scene.layers@ == layers_before(source, ray, k);
        if k < n + 1 {
            assert(terminal_on(source, ray, k) is None);
        }
        lemma_layers_stay(source, ray, n + 1, k);
    }
}

/// Layers stay in their places while a view ray goes on.
proof fn lemma_layers_stay<S: BlockSource>(source: &S, ray: Ray, n: nat, later: nat)
    requires
        n <= later,
    ensures
        layers_before(source, ray, n).len() <= layers_before(source, ray, later).len(),
        forall|i: int|
            0 <= i < layers_before(source, ray, n).len() ==> #[trigger] layers_before(
                source,
                ray,
                later,
            )[i] == layers_before(source, ray, n)[i],
    decreases later,
{
    if n < later {
        lemma_layers_stay(source, ray, n, (later - 1) as nat);
    }
}

/// The layers are exhausted only where a fifth translucent block is visited
/// behind four others, with nothing but air between them.
pub proof fn law_layer_limit_needs_a_fifth_block<S: BlockSource>(
    source: &S,
    ray: Ray,
    scene: SceneTrace,
)
    requires
        is_traced(source, Some(ray), scene),
        scene.terminal == RayTerminal::LayerLimit,
    ensures
        exists|n: nat|
            n <= crossings(ray) && #[trigger] clear_before(source, ray, n + 1) && blocks_before(
                source,
                ray,
                n,
            ) == 4 && source.voxel(visit(ray, n).position) is Solid,
{
    let n = choose|n: nat| #[trigger]
        ends_at(source, ray, n) && terminal_on(source, ray, n) == Some(scene.terminal)
            && scene.layers@ == layers_before(source, ray, n);
    lemma_passed_cells(source, ray, n);
    assert(clear_before(source, ray, n + 1));
}

/// The cells that a view ray passes are clear.
proof fn lemma_passed_cells<S: BlockSource>(source: &S, ray: Ray, n: nat)
    requires
        passes(source, ray, n),
    ensures
        clear_before(source, ray, n),
        layers_before(source, ray, n).len() == blocks_before(source, ray, n),
    decreases n,
{
    if n > 0 {
        let last = (n - 1) as nat;
        assert forall|m: nat| m < last implies (#[trigger] terminal_on(source, ray, m)) is None by {}
        lemma_passed_cells(source, ray, last);
        assert(terminal_on(source, ray, last) is None);
        assert forall|m: nat| m < n implies match #[trigger] source.voxel(visit(ray, m).position) {
            Voxel::Air => true,
            Voxel::Solid(block) => appearance_of(block.id@).opacity < 100,
            Voxel::Unloaded => false,
        } by {
            if m < last {
                assert(clear_before(source, ray, last));
            }
        }
    }
}

/// A ray meets the first visited cell that is not air, whatever lies behind
/// it: the block there, with its place, distance and entered face, or unloaded
/// space. Where all visited cells are air it meets nothing.
pub proof fn law_first_cell_is_met<S: BlockSource>(
    source: &S,
    ray: Ray,
    result: RayResult,
    n: nat,
)
    requires
        is_cast(source, Some(ray), result),
        n <= crossings(ray) + 1,
        forall|m: nat| m < n ==> #[trigger] source.voxel(visit(ray, m).position) == Voxel::Air,
    ensures
        n <= crossings(ray) ==> match source.voxel(visit(ray, n).position) {
            Voxel::Solid(block) => result == RayResult::Hit(
                RayHit {
                    position: visit(ray, n).position,
                    distance: visit(ray, n).distance,
                    block,
                    entered_face: visit(ray, n).entered_face,
                },
            ),
            Voxel::Unloaded => result == (RayResult::Unloaded {
                position: visit(ray, n).position,
                distance: visit(ray, n).distance,
            }),
            Voxel::Air => true,
        },
        n == crossings(ray) + 1 ==> result == RayResult::Miss,
{
    assert forall|m: nat| m < n implies #[trigger] voxel_on(source, ray, m) == Voxel::Air by {
        assert(source.voxel(visit(ray, m).position) == Voxel::Air);
    }
    if n <= crossings(ray) {
        match source.voxel(visit(ray, n).position) {
            Voxel::Solid(block) => {
                assert(stops_at(source, ray, n));
                let expected = RayResult::Hit(
                    RayHit {
                        position: visit(ray, n).position,
                        distance: visit(ray, n).distance,
                        block,
                        entered_face: visit(ray, n).entered_face,
                    },
                );
                assert(is_raycast(source, ray, expected));
                law_raycast_is_unique(source, ray, result, expected);
            },
            Voxel::Unloaded => {
                assert(stops_at(source, ray, n));
                let expected = RayResult::Unloaded {
                    position: visit(ray, n).position,
                    distance: visit(ray, n).distance,
                };
                assert(is_raycast(source, ray, expected));
                law_raycast_is_unique(source, ray, result, expected);
            },
            Voxel::Air => {},
        }
    } else {
        assert(is_raycast(source, ray, RayResult::Miss));
        law_raycast_is_unique(source, ray, result, RayResult::Miss);
    }
}

/// Without a ray nothing is met and nothing is shown.
pub proof fn law_no_ray_shows_nothing<S: BlockSource>(
    source: &S,
    result: RayResult,
    scene: SceneTrace,
)
    requires
        is_cast(source, None, result),
        is_traced(source, None, scene),
    ensures
        result == RayResult::Miss,
        scene.terminal == RayTerminal::Miss,
        scene.layers@.len() == 0,
{
}

/// A ray starts in its own cell at distance zero, through no face, and each
/// crossing that it takes is the nearest one left: of equally near ones x comes
/// before y, and y before z. The visited cell lies as many steps along each
/// axis as crossings of that axis were taken.
pub proof fn law_nearest_crossing_comes_first(ray: Ray, n: nat)
    requires
        ray_fits(ray),
        n < crossings(ray),
    ensures
        visit(ray, 0) == (Visit {
            position: ray.start,
            distance: Distance { key: 0 },
            entered_face: None,
        }),
        ({
            let taken = taken_after(ray, n);
            let later = taken_after(ray, n + 1);
            let next = visit(ray, n + 1);
            let along_x = later.x == taken.x + 1 && later.y == taken.y && later.z == taken.z;
            let along_y = later.x == taken.x && later.y == taken.y + 1 && later.z == taken.z;
            let along_z = later.x == taken.x && later.y == taken.y && later.z == taken.z + 1;
            &&& taken.x + taken.y + taken.z == n
            &&& along_x || along_y || along_z
            &&& along_x ==> taken.x < ray.x.sides@.len() && next.distance
                == ray.x.sides@[taken.x as int]
            &&& along_y ==> taken.y < ray.y.sides@.len() && next.distance
                == ray.y.sides@[taken.y as int]
            &&& along_z ==> taken.z < ray.z.sides@.len() && next.distance
                == ray.z.sides@[taken.z as int]
            &&& taken.x < ray.x.sides@.len() && !along_x ==> next.distance.key
                < ray.x.sides@[taken.x as int].key
            &&& taken.y < ray.y.sides@.len() && along_x ==> next.distance.key
                <= ray.y.sides@[taken.y as int].key
            &&& taken.y < ray.y.sides@.len() && along_z ==> next.distance.key
                < ray.y.sides@[taken.y as int].key
            &&& taken.z < ray.z.sides@.len() && !along_z ==> next.distance.key
                <= ray.z.sides@[taken.z as int].key
            &&& next.position.x == ray.start.x + ray.x.step * later.x
            &&& next.position.y == ray.start.y + ray.y.step * later.y
            &&& next.position.z == ray.start.z + ray.z.step * later.z
            &&& along_x ==> next.entered_face == Some(
                if ray.x.step == 1 {
                    Face::West
                } else {
                    Face::East
                },
            )
            &&& along_y ==> next.entered_face == Some(
                if ray.y.step == 1 {
                    Face::Bottom
                } else {
                    Face::Top
                },
            )
            &&& along_z ==> next.entered_face == Some(
                if ray.z.step == 1 {
                    Face::North
                } else {
                    Face::South
                },
            )
        }),
{
    lemma_taken(ray, n);
    lemma_taken(ray, n + 1);
    let later = taken_after(ray, n + 1);
    lemma_steps(ray.x.step, later.x);
    lemma_steps(ray.y.step, later.y);
    lemma_steps(ray.z.step, later.z);
}

/// A step of one cell or none, taken `count` times.
proof fn lemma_steps(step: i32, count: nat)
    requires
        -1 <= step <= 1,
    ensures
        displacement(step, count) == step * count,
{
    assert(step * count == displacement(step, count)) by (nonlinear_arith)
        requires
            -1 <= step <= 1,
            displacement(step, count) == (if step > 0 {
                count as int
            } else if step < 0 {
                -(count as int)
            } else {
                0
            }),
    ;
}

/// A ray is usable if it steps by one cell along each axis that it crosses, and
/// all cells that it reaches have coordinates.
pub proof fn law_usable_rays(ray: Ray)
    requires
        ray.x.step == 1 || ray.x.step == -1 || (ray.x.step == 0 && ray.x.sides@.len() == 0),
        ray.y.step == 1 || ray.y.step == -1 || (ray.y.step == 0 && ray.y.sides@.len() == 0),
        ray.z.step == 1 || ray.z.step == -1 || (ray.z.step == 0 && ray.z.sides@.len() == 0),
        i32::MIN + ray.x.sides@.len() <= ray.start.x <= i32::MAX - ray.x.sides@.len(),
        i32::MIN + ray.y.sides@.len() <= ray.start.y <= i32::MAX - ray.y.sides@.len(),
        i32::MIN + ray.z.sides@.len() <= ray.start.z <= i32::MAX - ray.z.sides@.len(),
    ensures
        ray_fits(ray),
        optional_ray_fits(Some(ray)),
        optional_ray_fits(None),
{
}

} // verus!
