//! Blocks, their positions and faces, and read access to a voxel world.
use vstd::prelude::*;

use crate::text::{append_signed, signed_decimal};

verus! {

/// Integer coordinates of a Minecraft block.
#[derive(Clone, Copy, Debug, Default, Hash, PartialEq, Eq, Structural)]
pub struct BlockPos {
    pub x: i32,
    pub y: i32,
    pub z: i32,
}

/// The notation of a position: `(x, y, z)`.
pub open spec fn position_text(p: BlockPos) -> Seq<char> {
    "("@ + signed_decimal(p.x as int) + ", "@ + signed_decimal(p.y as int) + ", "@
        + signed_decimal(p.z as int) + ")"@
}

impl BlockPos {
    pub fn new(x: i32, y: i32, z: i32) -> (p: Self)
        ensures
            p == (BlockPos { x, y, z }),
    {
        BlockPos { x, y, z }
    }

    /// Appends the notation of this position.
    pub fn append_to(self, output: &mut String)
        ensures
            final(output)@ == old(output)@ + position_text(self),
    {
        output.append("(");
        append_signed(output, self.x as i64);
        output.append(", ");
        append_signed(output, self.y as i64);
        output.append(", ");
        append_signed(output, self.z as i64);
        output.append(")");
        assert(output@ =~= old(output)@ + position_text(self));
    }

    /// The notation of this position.
    pub fn to_string(&self) -> (text: String)
        ensures
            text@ == position_text(*self),
    {
        let mut text = String::new();
        self.append_to(&mut text);
        assert(text@ =~= position_text(*self));
        text
    }
}

/// A minimal, state-independent description of a solid block.
#[derive(Clone, Copy, Debug, PartialEq, Eq)]
pub struct Block {
    /// Minecraft's un-namespaced registry identifier, such as `stone`.
    pub id: &'static str,
}

/// A world sample returned to the raycaster.
#[derive(Clone, Copy, Debug, PartialEq, Eq)]
pub enum Voxel {
    Air,
    Solid(Block),
    /// The chunk is not available locally yet. It must not be treated as air.
    Unloaded,
}

/// The block and sky light values stored by Minecraft for one block.
#[derive(Clone, Copy, Debug, Default, PartialEq, Eq, Structural)]
pub struct LightLevels {
    pub block: u8,
    pub sky: u8,
}

impl LightLevels {
    /// The light of an open daytime cell.
    pub fn full_sky() -> (levels: Self)
        ensures
            levels == (LightLevels { block: 0, sky: 15 }),
    {
        LightLevels { block: 0, sky: 15 }
    }

    pub fn new(block: u8, sky: u8) -> (levels: Self)
        ensures
            levels == (LightLevels { block, sky }),
    {
        LightLevels { block, sky }
    }
}

/// Read-only block access needed by the renderer.
///
/// `voxel` and `light` say in contracts what `voxel_at` and `light_at` answer;
/// nothing calls them.
pub trait BlockSource: Sync {
    /// What stands at a position.
    spec fn voxel(&self, position: BlockPos) -> Voxel;

    /// The light of a position.
    spec fn light(&self, position: BlockPos) -> LightLevels;

    fn voxel_at(&self, position: BlockPos) -> (voxel: Voxel)
        ensures
            voxel == self.voxel(position),
    ;

    /// Returns the received light values for a loaded block. A synthetic
    /// source without light of its own answers [`LightLevels::full_sky`].
    fn light_at(&self, position: BlockPos) -> (levels: LightLevels)
        ensures
            levels == self.light(position),
    ;
}

/// The face through which a ray entered a block.
#[derive(Clone, Copy, Debug, PartialEq, Eq, Structural)]
pub enum Face {
    West,
    East,
    Bottom,
    Top,
    North,
    South,
}

/// How far each coordinate changes from a block to the cell outside a face.
pub open spec fn outward(face: Face) -> (int, int, int) {
    match face {
        Face::West => (-1, 0, 0),
        Face::East => (1, 0, 0),
        Face::Bottom => (0, -1, 0),
        Face::Top => (0, 1, 0),
        Face::North => (0, 0, -1),
        Face::South => (0, 0, 1),
    }
}

/// Whether the cell outside a face has coordinates of its own.
pub open spec fn has_neighbor(face: Face, p: BlockPos) -> bool {
    let (dx, dy, dz) = outward(face);
    &&& i32::MIN <= p.x + dx <= i32::MAX
    &&& i32::MIN <= p.y + dy <= i32::MAX
    &&& i32::MIN <= p.z + dz <= i32::MAX
}

/// The cell outside a face of a block.
pub open spec fn neighbor(face: Face, p: BlockPos) -> BlockPos {
    let (dx, dy, dz) = outward(face);
    BlockPos { x: (p.x + dx) as i32, y: (p.y + dy) as i32, z: (p.z + dz) as i32 }
}

/// The name of a face.
pub open spec fn face_name(face: Face) -> Seq<char> {
    match face {
        Face::West => "West"@,
        Face::East => "East"@,
        Face::Bottom => "Bottom"@,
        Face::Top => "Top"@,
        Face::North => "North"@,
        Face::South => "South"@,
    }
}

impl Face {
    /// How much of the light a face shows, in percent.
    pub fn lighting(self) -> (percent: u8)
        ensures
            percent == (match self {
                Face::Top => 100u8,
                Face::Bottom => 48u8,
                Face::North => 76u8,
                Face::South => 76u8,
                Face::West => 84u8,
                Face::East => 84u8,
            }),
    {
        match self {
            Face::Top => 100,
            Face::Bottom => 48,
            Face::North | Face::South => 76,
            Face::West | Face::East => 84,
        }
    }

    /// The air/fluid cell immediately outside this entered face. Minecraft's
    /// light values describe the space around a solid block, so this is the
    /// value that lights the face a ray can actually see.
    pub fn light_sample_position(self, position: BlockPos) -> (cell: BlockPos)
        requires
            has_neighbor(self, position),
        ensures
            cell == neighbor(self, position),
    {
        match self {
            Face::West => BlockPos::new(position.x - 1, position.y, position.z),
            Face::East => BlockPos::new(position.x + 1, position.y, position.z),
            Face::Bottom => BlockPos::new(position.x, position.y - 1, position.z),
            Face::Top => BlockPos::new(position.x, position.y + 1, position.z),
            Face::North => BlockPos::new(position.x, position.y, position.z - 1),
            Face::South => BlockPos::new(position.x, position.y, position.z + 1),
        }
    }

    /// The name of this face.
    pub fn name(self) -> (name: &'static str)
        ensures
            name@ == face_name(self),
    {
        match self {
            Face::West => "West",
            Face::East => "East",
            Face::Bottom => "Bottom",
            Face::Top => "Top",
            Face::North => "North",
            Face::South => "South",
        }
    }
}

/// The cell outside a face shares that face: west and east differ from the
/// block by one in x, bottom and top by one in y, north and south by one in z,
/// and the block lies outside the opposite face of that cell.
pub proof fn law_neighbors_share_a_face(p: BlockPos)
    requires
        i32::MIN < p.x < i32::MAX,
        i32::MIN < p.y < i32::MAX,
        i32::MIN < p.z < i32::MAX,
    ensures
        neighbor(Face::West, p).x + 1 == p.x && neighbor(Face::East, p).x - 1 == p.x,
        neighbor(Face::Bottom, p).y + 1 == p.y && neighbor(Face::Top, p).y - 1 == p.y,
        neighbor(Face::North, p).z + 1 == p.z && neighbor(Face::South, p).z - 1 == p.z,
        neighbor(Face::East, neighbor(Face::West, p)) == p,
        neighbor(Face::Top, neighbor(Face::Bottom, p)) == p,
        neighbor(Face::South, neighbor(Face::North, p)) == p,
        forall|face: Face| #[trigger]
            neighbor(face, p).x != p.x ==> neighbor(face, p).y == p.y && neighbor(face, p).z == p.z,
        forall|face: Face| #[trigger]
            neighbor(face, p).y != p.y ==> neighbor(face, p).x == p.x && neighbor(face, p).z == p.z,
        forall|face: Face| #[trigger]
            neighbor(face, p).z != p.z ==> neighbor(face, p).x == p.x && neighbor(face, p).y == p.y,
{
}

/// No two faces have the same name.
pub proof fn law_face_names_differ(a: Face, b: Face)
    ensures
        face_name(a) == face_name(b) ==> a == b,
{
    reveal_strlit("West");
    assert("West"@.len() == 4);
    reveal_strlit("East");
    assert("East"@.len() == 4);
    reveal_strlit("Bottom");
    assert("Bottom"@.len() == 6);
    reveal_strlit("Top");
    assert("Top"@.len() == 3);
    reveal_strlit("North");
    assert("North"@.len() == 5);
    reveal_strlit("South");
    assert("South"@.len() == 5);
    assert("West"@[0] != "East"@[0]);
    assert("North"@[0] != "South"@[0]);
}

} // verus!
