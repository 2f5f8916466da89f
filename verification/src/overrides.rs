//! The latest authoritative block states received after a chunk was streamed.
//!
//! The client applies block updates to its shared world a little later than
//! it receives them; this small sidecar closes that transient gap for the
//! renderer.
use std::collections::HashMap;

use vstd::prelude::*;

use crate::grid::{Block, BlockPos, LightLevels, Voxel};
use crate::lighting::{in_chunk, section_of, SECTION_EDGE};
use crate::text::same_text;

verus! {

broadcast use vstd::std_specs::hash::group_hash_axioms;

/// What an updated position shows.
#[derive(Clone, Copy, Debug, PartialEq, Eq)]
pub enum BlockOverride {
    Air,
    Solid(&'static str),
}

/// What a block identifier shows: nothing for the kinds of air, else the block
/// itself.
pub open spec fn shown_id(id: Seq<char>) -> Option<Seq<char>> {
    if id == "air"@ || id == "cave_air"@ || id == "void_air"@ {
        None
    } else {
        Some(id)
    }
}

/// What an override shows.
pub open spec fn shown(block: BlockOverride) -> Option<Seq<char>> {
    match block {
        BlockOverride::Air => None,
        BlockOverride::Solid(id) => Some(id@),
    }
}

/// What an override puts in the place of the streamed block.
pub open spec fn override_voxel(block: BlockOverride) -> Voxel {
    match block {
        BlockOverride::Air => Voxel::Air,
        BlockOverride::Solid(id) => Voxel::Solid(Block { id }),
    }
}

/// The override that a block identifier stands for.
pub open spec fn override_of(id: &'static str) -> BlockOverride {
    if shown_id(id@) is None {
        BlockOverride::Air
    } else {
        BlockOverride::Solid(id)
    }
}

/// The override that a block identifier stands for.
pub fn block_override_from_id(id: &'static str) -> (block: BlockOverride)
    ensures
        block == override_of(id),
        shown(block) == shown_id(id@),
{
    if same_text(id, "air") || same_text(id, "cave_air") || same_text(id, "void_air") {
        BlockOverride::Air
    } else {
        BlockOverride::Solid(id)
    }
}

impl BlockOverride {
    /// What this override puts in the place of the streamed block.
    pub fn voxel(self) -> (voxel: Voxel)
        ensures
            voxel == override_voxel(self),
    {
        match self {
            BlockOverride::Air => Voxel::Air,
            BlockOverride::Solid(id) => Voxel::Solid(Block { id }),
        }
    }

    /// Whether two overrides show the same.
    fn shows_same(self, other: Self) -> (same: bool)
        ensures
            same == (shown(self) == shown(other)),
    {
        match (self, other) {
            (BlockOverride::Air, BlockOverride::Air) => true,
            (BlockOverride::Solid(a), BlockOverride::Solid(b)) => same_text(a, b),
            _ => false,
        }
    }
}

/// What stands at a position of the live world: the override if there is one,
/// else the streamed block, and unloaded space where none was streamed.
pub open spec fn live_voxel_of(
    overriding: Option<BlockOverride>,
    streamed_id: Option<&'static str>,
) -> Voxel {
    match (overriding, streamed_id) {
        (Some(block), _) => override_voxel(block),
        (None, Some(id)) => override_voxel(override_of(id)),
        (None, None) => Voxel::Unloaded,
    }
}

/// What stands at a position of the live world.
pub fn live_voxel(
    overriding: Option<BlockOverride>,
    streamed_id: Option<&'static str>,
) -> (voxel: Voxel)
    ensures
        voxel == live_voxel_of(overriding, streamed_id),
{
    match overriding {
        Some(block) => block.voxel(),
        None => match streamed_id {
            Some(id) => block_override_from_id(id).voxel(),
            None => Voxel::Unloaded,
        },
    }
}

/// The light that the live world shows where the given light is known. A light
/// packet is normally received before its chunk is rendered; until then the
/// light is that of open sky, so that freshly streamed terrain is not black.
pub open spec fn live_light_of(known: Option<LightLevels>) -> LightLevels {
    match known {
        Some(levels) => levels,
        None => LightLevels { block: 0, sky: 15 },
    }
}

/// The light that the live world shows where the given light is known.
pub fn live_light(known: Option<LightLevels>) -> (levels: LightLevels)
    ensures
        levels == live_light_of(known),
{
    match known {
        Some(levels) => levels,
        None => LightLevels::full_sky(),
    }
}

/// The map key of a position.
spec fn position_key_of(p: BlockPos) -> int {
    p.x * 0x1_0000_0000_0000_0000 + (p.y + 0x8000_0000) * 0x1_0000_0000 + (p.z + 0x8000_0000)
}

fn position_key(p: BlockPos) -> (key: i128)
    ensures
        key == position_key_of(p),
{
    p.x as i128 * 0x1_0000_0000_0000_0000 + (p.y as i128 + 0x8000_0000) * 0x1_0000_0000 + (
    p.z as i128 + 0x8000_0000)
}

/// Whether the streamed world now shows what an override shows.
pub open spec fn confirms(streamed_id: Option<&'static str>, expected: BlockOverride) -> bool {
    match streamed_id {
        Some(id) => shown_id(id@) == shown(expected),
        None => false,
    }
}

/// Whether the fate of an override follows from an answer of the lookup: it is
/// kept unless the answer confirms it.
pub open spec fn decided<L: Fn(BlockPos) -> Option<&'static str>>(
    lookup: L,
    p: BlockPos,
    expected: BlockOverride,
    kept: bool,
) -> bool {
    exists|id: Option<&'static str>| #[trigger]
        call_ensures(lookup, (p,), id) && kept == !confirms(id, expected)
}

/// Block states by position, kept until the streamed world shows them too.
#[derive(Debug)]
pub struct BlockOverrides {
    entries: HashMap<i128, (BlockPos, BlockOverride)>,
}

impl BlockOverrides {
    /// Every entry is filed under its position.
    pub closed spec fn wf(self) -> bool {
        forall|key: i128| #[trigger]
            self.entries@.contains_key(key) ==> key == position_key_of(self.entries@[key].0)
    }

    /// The override of a position.
    pub closed spec fn at(self, p: BlockPos) -> Option<BlockOverride> {
        let key = position_key_of(p) as i128;
        if self.entries@.contains_key(key) {
            Some(self.entries@[key].1)
        } else {
            None
        }
    }

    /// No overrides.
    pub fn new() -> (overrides: Self)
        ensures
            overrides.wf(),
            forall|p: BlockPos| (#[trigger] overrides.at(p)) is None,
    {
        BlockOverrides { entries: HashMap::new() }
    }

    /// The override of a position.
    pub fn get(&self, position: BlockPos) -> (block: Option<BlockOverride>)
        requires
            self.wf(),
        ensures
            block == self.at(position),
    {
        let key = position_key(position);
        match self.entries.get(&key) {
            Some(entry) => Some(entry.1),
            None => None,
        }
    }

    /// Drops all overrides.
    pub fn clear(&mut self)
        ensures
            final(self).wf(),
            forall|p: BlockPos| (#[trigger] final(self).at(p)) is None,
    {
        self.entries.clear();
    }

    /// Keeps what a block update says of a position.
    pub fn set_block_override(&mut self, position: BlockPos, id: &'static str)
        requires
            old(self).wf(),
        ensures
            final(self).wf(),
            forall|p: BlockPos| #[trigger]
                final(self).at(p) == (if p == position {
                    Some(override_of(id))
                } else {
                    old(self).at(p)
                }),
    {
        let key = position_key(position);
        self.entries.insert(key, (position, block_override_from_id(id)));
    }

    /// The keys of all entries.
    fn keys(&self) -> (keys: Vec<i128>)
        ensures
            keys@.no_duplicates(),
            keys@.to_set() == self.entries@.dom(),
    {
        let mut keys: Vec<i128> = Vec::new();
        for key in iter: self.entries.keys()
            invariant
                keys@ == iter.seq().unref().take(iter.index()),
                iter.seq().unref().to_set() == self.entries@.dom(),
                iter.seq().no_duplicates(),
                iter.seq().unref().take(iter.seq().len() as int) == iter.seq().unref(),
        {
            keys.push(*key);
        }
        keys
    }

    /// Drop an override once the streamed world shows exactly the same
    /// rendering-relevant block state. Overrides of positions that are not
    /// streamed, or that show something else, stay.
    #[verifier::spinoff_prover]
    #[verifier::rlimit(40)]
    pub fn retain_unconfirmed_block_overrides<L: Fn(BlockPos) -> Option<&'static str>>(
        &mut self,
        streamed_block_id: L,
    )
        requires
            old(self).wf(),
            forall|p: BlockPos| call_requires(streamed_block_id, (p,)),
        ensures
            final(self).wf(),
            forall|p: BlockPos|
                #![trigger final(self).at(p)]
                match old(self).at(p) {
                    None => final(self).at(p) is None,
                    Some(expected) => {
                        &&& decided(streamed_block_id, p, expected, final(self).at(p) is Some)
                        &&& final(self).at(p) is Some ==> final(self).at(p) == Some(expected)
                    },
                },
    {
        let keys = self.keys();
        let mut i: usize = 0;
        while i < keys.len()
            invariant
                i <= keys@.len(),
                keys@.no_duplicates(),
                keys@.to_set() == old(self).entries@.dom(),
                old(self).wf(),
                self.wf(),
                forall|p: BlockPos| call_requires(streamed_block_id, (p,)),
                forall|key: i128| #[trigger]
                    self.entries@.contains_key(key) ==> old(self).entries@.contains_key(key)
                        && self.entries@[key] == old(self).entries@[key],
                forall|k: int| i <= k < keys@.len() ==> self.entries@.contains_key(#[trigger] keys@[k]),
                forall|k: int|
                    #![trigger keys@[k]]
                    0 <= k < i ==> decided(
                        streamed_block_id,
                        old(self).entries@[keys@[k]].0,
                        old(self).entries@[keys@[k]].1,
                        self.entries@.contains_key(keys@[k]),
                    ),
            decreases keys@.len() - i,
        {
            let ghost before = *self;
            let key = keys[i];
            let (position, expected) = *self.entries.get(&key).unwrap();
            let streamed = streamed_block_id(position);
            let confirmed = match streamed {
                Some(id) => block_override_from_id(id).shows_same(expected),
                None => false,
            };
            if confirmed {
                self.entries.remove(&key);
            }
            assert(call_ensures(streamed_block_id, (position,), streamed));
            assert forall|k: int| #![trigger keys@[k]] 0 <= k < i + 1 implies decided(
                streamed_block_id,
                old(self).entries@[keys@[k]].0,
                old(self).entries@[keys@[k]].1,
                self.entries@.contains_key(keys@[k]),
            ) by {
                if k < i {
                    assert(keys@[k] != key);
                    assert(self.entries@.contains_key(keys@[k]) == before.entries@.contains_key(
                        keys@[k],
                    ));
                }
            }
            i = i + 1;
        }
        assert forall|p: BlockPos|
            #![trigger self.at(p)]
            match old(self).at(p) {
                None => self.at(p) is None,
                Some(expected) => {
                    &&& decided(streamed_block_id, p, expected, self.at(p) is Some)
                    &&& self.at(p) is Some ==> self.at(p) == Some(expected)
                },
            } by {
            let key = position_key_of(p) as i128;
            if old(self).entries@.contains_key(key) {
                assert(keys@.to_set().contains(key));
                let k = choose|k: int| 0 <= k < keys@.len() && keys@[k] == key;
                assert(old(self).entries@[key].0 == p);
                assert(decided(
                    streamed_block_id,
                    old(self).entries@[keys@[k]].0,
                    old(self).entries@[keys@[k]].1,
                    self.entries@.contains_key(keys@[k]),
                ));
            }
        }
    }

    /// Drops the overrides of one chunk: a full chunk payload supersedes them,
    /// and a forgotten chunk has no use for them.
    #[verifier::spinoff_prover]
    #[verifier::rlimit(40)]
    pub fn remove_chunk_block_overrides(&mut self, chunk_x: i32, chunk_z: i32)
        requires
            old(self).wf(),
        ensures
            final(self).wf(),
            forall|p: BlockPos| #[trigger]
                final(self).at(p) == (if in_chunk(p, chunk_x, chunk_z) {
                    None
                } else {
                    old(self).at(p)
                }),
    {
        let keys = self.keys();
        let mut i: usize = 0;
        while i < keys.len()
            invariant
                i <= keys@.len(),
                keys@.no_duplicates(),
                keys@.to_set() == old(self).entries@.dom(),
                old(self).wf(),
                self.wf(),
                forall|key: i128| #[trigger]
                    self.entries@.contains_key(key) ==> old(self).entries@.contains_key(key)
                        && self.entries@[key] == old(self).entries@[key],
                forall|k: int| i <= k < keys@.len() ==> self.entries@.contains_key(#[trigger] keys@[k]),
                forall|k: int|
                    0 <= k < i ==> self.entries@.contains_key(#[trigger] keys@[k]) == !in_chunk(
                        old(self).entries@[keys@[k]].0,
                        chunk_x,
                        chunk_z,
                    ),
            decreases keys@.len() - i,
        {
            let ghost before = *self;
            let key = keys[i];
            let (position, _) = *self.entries.get(&key).unwrap();
            if position.x.checked_div_euclid(SECTION_EDGE).unwrap() == chunk_x
                && position.z.checked_div_euclid(SECTION_EDGE).unwrap() == chunk_z {
                self.entries.remove(&key);
            }
            assert forall|k: int| 0 <= k < i implies self.entries@.contains_key(#[trigger] keys@[k])
                == !in_chunk(old(self).entries@[keys@[k]].0, chunk_x, chunk_z) by {
                assert(keys@[k] != key);
                assert(self.entries@.contains_key(keys@[k]) == before.entries@.contains_key(
                    keys@[k],
                ));
            }
            i = i + 1;
        }
        assert forall|p: BlockPos| #[trigger]
            self.at(p) == (if in_chunk(p, chunk_x, chunk_z) {
                None
            } else {
                old(self).at(p)
            }) by {
            let key = position_key_of(p) as i128;
            if old(self).entries@.contains_key(key) {
                assert(keys@.to_set().contains(key));
                let k = choose|k: int| 0 <= k < keys@.len() && keys@[k] == key;
                assert(self.entries@.contains_key(keys@[k]) == !in_chunk(
                    old(self).entries@[keys@[k]].0,
                    chunk_x,
                    chunk_z,
                ));
                assert(old(self).entries@[key].0 == p);
            }
        }
    }
}

/// Every kind of air shows nothing, and nothing else does.
pub proof fn law_only_air_shows_nothing(id: &'static str)
    ensures
        override_voxel(override_of(id)) == Voxel::Air <==> (id@ == "air"@ || id@ == "cave_air"@
            || id@ == "void_air"@),
        override_voxel(override_of(id)) != Voxel::Unloaded,
{
}

/// An override that the streamed world confirms changes nothing that is seen:
/// with or without it the position shows the same block.
pub proof fn law_confirmed_overrides_are_redundant(
    id: &'static str,
    expected: BlockOverride,
)
    requires
        confirms(Some(id), expected),
    ensures
        ({
            let with = live_voxel_of(Some(expected), Some(id));
            let without = live_voxel_of(None, Some(id));
            match (with, without) {
                (Voxel::Air, Voxel::Air) => true,
                (Voxel::Solid(a), Voxel::Solid(b)) => a.id@ == b.id@,
                _ => false,
            }
        }),
{
}

/// The live world shows the newest block that is known of a position: that of
/// a block update before the streamed one. Any block but the kinds of air is
/// shown as itself, and a position of which nothing is known is unloaded, never
/// air.
pub proof fn law_newest_block_is_shown(
    updated_id: Option<&'static str>,
    streamed_id: Option<&'static str>,
)
    ensures
        ({
            let update = match updated_id {
                Some(id) => Some(override_of(id)),
                None => None,
            };
            let known = if updated_id is Some {
                updated_id
            } else {
                streamed_id
            };
            match known {
                Some(id) => if id@ == "air"@ || id@ == "cave_air"@ || id@ == "void_air"@ {
                    live_voxel_of(update, streamed_id) == Voxel::Air
                } else {
                    live_voxel_of(update, streamed_id) == Voxel::Solid(Block { id })
                },
                None => live_voxel_of(update, streamed_id) == Voxel::Unloaded,
            }
        }),
{
}

/// Known light is shown as it is; unknown light as that of the open sky.
pub proof fn law_known_light_is_shown(levels: LightLevels)
    ensures
        live_light_of(Some(levels)) == levels,
        live_light_of(None).sky == 15,
        live_light_of(None).block == 0,
{
}

/// An update is dropped exactly when the streamed world shows the same block
/// in its place, or air where it shows air. It waits while nothing is streamed
/// there and while something else is.
pub proof fn law_updates_wait_for_the_stream<L: Fn(BlockPos) -> Option<&'static str>>(
    lookup: L,
    p: BlockPos,
    updated_id: &'static str,
    streamed_id: Option<&'static str>,
    kept: bool,
)
    requires
        decided(lookup, p, override_of(updated_id), kept),
        forall|id: Option<&'static str>| #[trigger]
            call_ensures(lookup, (p,), id) ==> id == streamed_id,
    ensures
        !kept <==> match streamed_id {
            Some(id) => {
                let streamed_air = id@ == "air"@ || id@ == "cave_air"@ || id@ == "void_air"@;
                let updated_air = updated_id@ == "air"@ || updated_id@ == "cave_air"@
                    || updated_id@ == "void_air"@;
                (streamed_air && updated_air) || id@ == updated_id@
            },
            None => false,
        },
{
}

} // verus!
