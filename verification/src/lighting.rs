//! Client-owned storage for Minecraft's streamed light and clock data.
//!
//! Minecraft sends lighting separately from blocks, as packed 4-bit values.
//! This compact cache is kept in step with the same chunk packets.
use std::collections::{HashMap, HashSet};

use vstd::prelude::*;

use crate::grid::{BlockPos, LightLevels};

verus! {

broadcast use vstd::std_specs::hash::group_hash_axioms;

/// The edge of a cubic section, in blocks.
pub const SECTION_EDGE: i32 = 16;

/// The bytes that describe one kind of light in a section.
pub const LIGHT_SECTION_BYTES: usize = 2_048;

/// What is known of one kind of light in one section.
pub enum SectionLight {
    /// Nothing was received yet.
    Unknown,
    /// The server declared the section all-zero.
    Dark,
    /// The received values, two per byte.
    Bytes(Seq<u8>),
}

/// The 4-bit value at an index of packed light: even indices are in the low
/// half of their byte.
pub open spec fn nibble(bytes: Seq<u8>, index: int) -> u8 {
    if index % 2 == 0 {
        (bytes[index / 2] % 16) as u8
    } else {
        bytes[index / 2] / 16
    }
}

/// The light level at an index of a section, if the section is known.
pub open spec fn level(section: SectionLight, index: int) -> Option<u8> {
    match section {
        SectionLight::Unknown => None,
        SectionLight::Dark => Some(0),
        SectionLight::Bytes(bytes) => Some(nibble(bytes, index)),
    }
}

/// The chunk or section in which a coordinate lies.
pub open spec fn section_of(coordinate: int) -> int {
    coordinate / 16
}

/// The index of a cell within its section: x varies fastest, then z, then y.
pub open spec fn cell_index(p: BlockPos) -> int {
    p.x as int % 16 + 16 * (p.z as int % 16) + 256 * (p.y as int % 16)
}

/// Reads one 4-bit value of packed light.
pub fn nibble_at(data: &Vec<u8>, index: usize) -> (value: u8)
    requires
        index / 2 < data@.len(),
    ensures
        value == nibble(data@, index as int),
{
    let byte = data[index / 2];
    if index % 2 == 0 {
        assert(byte & 0x0f == byte % 16) by (bit_vector);
        byte & 0x0f
    } else {
        assert(byte >> 4 == byte / 16) by (bit_vector);
        byte >> 4
    }
}

/// A copy of received bytes.
fn copied(bytes: &[u8]) -> (copy: Vec<u8>)
    ensures
        copy@ == bytes@,
{
    let mut copy: Vec<u8> = Vec::new();
    let mut k: usize = 0;
    while k < bytes.len()
        invariant
            k <= bytes@.len(),
            copy@ == bytes@.take(k as int),
        decreases bytes@.len() - k,
    {
        copy.push(bytes[k]);
        k = k + 1;
        assert(copy@ =~= bytes@.take(k as int));
    }
    assert(bytes@.take(k as int) =~= bytes@);
    copy
}

/// The section that a bit of a packet's mask selects, counted from the section
/// of bit zero.
pub open spec fn masked_section(min_section: int, mask_index: usize) -> int {
    min_section + (mask_index as i32)
}

/// The section of mask bit zero: the one immediately below the world's lowest
/// actual section.
pub open spec fn first_section(min_y: int) -> int {
    min_y / 16 - 1
}

/// Whether every bit of a mask selects a section that has a number.
pub open spec fn mask_fits(min_section: int, masks: Seq<usize>) -> bool {
    forall|i: int|
        0 <= i < masks.len() ==> i32::MIN <= #[trigger] masked_section(min_section, masks[i])
            <= i32::MAX
}

/// Whether one of the first `n` bits of a mask selects section `y`.
pub open spec fn selects(masks: Seq<usize>, min_section: int, y: int, n: int) -> bool {
    exists|i: int| 0 <= i < n && #[trigger] masked_section(min_section, masks[i]) == y
}

/// The last of the first `n` updates that is well-formed and meant for
/// section `y`.
pub open spec fn last_update(
    masks: Seq<usize>,
    updates: Seq<Box<[u8]>>,
    min_section: int,
    y: int,
    n: nat,
) -> Option<Seq<u8>>
    decreases n,
{
    if n == 0 {
        None
    } else if updates[n - 1]@.len() == LIGHT_SECTION_BYTES && masked_section(
        min_section,
        masks[n - 1],
    ) == y {
        Some(updates[n - 1]@)
    } else {
        last_update(masks, updates, min_section, y, (n - 1) as nat)
    }
}

/// How many mask bits have an update.
pub open spec fn paired(masks: Seq<usize>, updates: Seq<Box<[u8]>>) -> nat {
    if masks.len() <= updates.len() {
        masks.len()
    } else {
        updates.len()
    }
}

/// Whether every well-formed update is meant for a section that has a number.
pub open spec fn updates_fit(
    min_section: int,
    masks: Seq<usize>,
    updates: Seq<Box<[u8]>>,
) -> bool {
    forall|i: int|
        0 <= i < paired(masks, updates) && updates[i]@.len() == LIGHT_SECTION_BYTES ==> i32::MIN
            <= #[trigger] masked_section(min_section, masks[i]) <= i32::MAX
}

/// The update of a packet for section `y`, if it holds a well-formed one.
pub open spec fn update_for(
    masks: Seq<usize>,
    updates: Seq<Box<[u8]>>,
    min_section: int,
    y: int,
) -> Option<Seq<u8>> {
    last_update(masks, updates, min_section, y, paired(masks, updates))
}

/// What a packet says of one kind of light in section `y`, if anything: its
/// update, else that it is dark if the packet lists it as empty.
pub open spec fn told(
    empty: Seq<usize>,
    masks: Seq<usize>,
    updates: Seq<Box<[u8]>>,
    min_section: int,
    y: int,
) -> Option<SectionLight> {
    match update_for(masks, updates, min_section, y) {
        Some(bytes) => Some(SectionLight::Bytes(bytes)),
        None => if selects(empty, min_section, y, empty.len() as int) {
            Some(SectionLight::Dark)
        } else {
            None
        },
    }
}

/// What is known of a section after a packet: what the packet says, else what
/// was known before.
pub open spec fn section_after(
    before: SectionLight,
    empty: Seq<usize>,
    masks: Seq<usize>,
    updates: Seq<Box<[u8]>>,
    min_section: int,
    y: int,
) -> SectionLight {
    match told(empty, masks, updates, min_section, y) {
        Some(section) => section,
        None => before,
    }
}

/// One kind of light in the sections of a chunk.
#[derive(Debug)]
struct SectionStore {
    data: HashMap<i32, Vec<u8>>,
    /// Sections the server explicitly marked as all-zero. This must be kept
    /// separate from absent map entries, which merely mean that a sparse
    /// update did not name that section.
    empty: HashSet<i32>,
}

impl SectionStore {
    /// Every stored section is complete, and none of them is also marked
    /// empty.
    spec fn wf(self) -> bool {
        &&& forall|y: i32| #[trigger]
            self.data@.contains_key(y) ==> self.data@[y]@.len() == LIGHT_SECTION_BYTES
                && !self.empty@.contains(y)
    }

    spec fn section(self, y: int) -> SectionLight {
        if i32::MIN <= y <= i32::MAX && self.data@.contains_key(y as i32) {
            SectionLight::Bytes(self.data@[y as i32]@)
        } else if i32::MIN <= y <= i32::MAX && self.empty@.contains(y as i32) {
            SectionLight::Dark
        } else {
            SectionLight::Unknown
        }
    }

    fn new() -> (store: Self)
        ensures
            store.wf(),
            forall|y: int| #[trigger] store.section(y) == SectionLight::Unknown,
    {
        SectionStore { data: HashMap::new(), empty: HashSet::new() }
    }

    /// Marks the selected sections as all-zero.
    fn clear_sections(&mut self, masks: &[usize], min_section: i32)
        requires
            old(self).wf(),
            mask_fits(min_section as int, masks@),
        ensures
            final(self).wf(),
            forall|y: int| #[trigger]
                final(self).section(y) == (if selects(
                    masks@,
                    min_section as int,
                    y,
                    masks@.len() as int,
                ) {
                    SectionLight::Dark
                } else {
                    old(self).section(y)
                }),
    {
        let mut i: usize = 0;
        while i < masks.len()
            invariant
                i <= masks@.len(),
                mask_fits(min_section as int, masks@),
                self.wf(),
                forall|y: int| #[trigger]
                    self.section(y) == (if selects(masks@, min_section as int, y, i as int) {
                        SectionLight::Dark
                    } else {
                        old(self).section(y)
                    }),
            decreases masks@.len() - i,
        {
            let ghost before = *self;
            assert(i32::MIN <= masked_section(min_section as int, masks@[i as int]) <= i32::MAX);
            let section: i32 = min_section + masks[i] as i32;
            self.data.remove(&section);
            self.empty.insert(section);
            assert forall|y: int| #[trigger]
                self.section(y) == (if selects(masks@, min_section as int, y, i + 1) {
                    SectionLight::Dark
                } else {
                    old(self).section(y)
                }) by {
                assert(before.section(y) == (if selects(masks@, min_section as int, y, i as int) {
                    SectionLight::Dark
                } else {
                    old(self).section(y)
                }));
                if y == section {
                    assert(masked_section(min_section as int, masks@[i as int]) == y);
                } else {
                    assert(self.section(y) == before.section(y));
                    if selects(masks@, min_section as int, y, i + 1) {
                        let k = choose|k: int|
                            0 <= k < i + 1 && #[trigger] masked_section(
                                min_section as int,
                                masks@[k],
                            ) == y;
                        assert(k < i);
                    }
                }
            }
            i = i + 1;
        }
    }

    /// Stores the received sections. A malformed update does not touch its
    /// section. Valid Minecraft packets always hold exactly 2,048 bytes per
    /// selected section.
    fn insert_sections(&mut self, masks: &[usize], updates: &[Box<[u8]>], min_section: i32)
        requires
            old(self).wf(),
            updates_fit(min_section as int, masks@, updates@),
        ensures
            final(self).wf(),
            forall|y: int| #[trigger]
                final(self).section(y) == (match update_for(
                    masks@,
                    updates@,
                    min_section as int,
                    y,
                ) {
                    Some(bytes) => SectionLight::Bytes(bytes),
                    None => old(self).section(y),
                }),
    {
        let mut i: usize = 0;
        while i < masks.len() && i < updates.len()
            invariant
                i <= paired(masks@, updates@),
                updates_fit(min_section as int, masks@, updates@),
                self.wf(),
                forall|y: int| #[trigger]
                    self.section(y) == (match last_update(
                        masks@,
                        updates@,
                        min_section as int,
                        y,
                        i as nat,
                    ) {
                        Some(bytes) => SectionLight::Bytes(bytes),
                        None => old(self).section(y),
                    }),
            decreases masks@.len() - i,
        {
            let ghost before = *self;
            let update: &[u8] = &updates[i];
            if update.len() == LIGHT_SECTION_BYTES {
                assert(i32::MIN <= masked_section(min_section as int, masks@[i as int])
                    <= i32::MAX);
                let section: i32 = min_section + masks[i] as i32;
                self.data.insert(section, copied(update));
                self.empty.remove(&section);
                assert forall|y: int| y != section implies #[trigger] self.section(y)
                    == before.section(y) by {}
            }
            assert forall|y: int| #[trigger]
                self.section(y) == (match last_update(
                    masks@,
                    updates@,
                    min_section as int,
                    y,
                    (i + 1) as nat,
                ) {
                    Some(bytes) => SectionLight::Bytes(bytes),
                    None => old(self).section(y),
                }) by {
                assert(before.section(y) == (match last_update(
                    masks@,
                    updates@,
                    min_section as int,
                    y,
                    i as nat,
                ) {
                    Some(bytes) => SectionLight::Bytes(bytes),
                    None => old(self).section(y),
                }));
            }
            i = i + 1;
        }
    }

    /// The light level at an index of a section, if the section is known.
    fn light_value(&self, section_y: i32, index: usize) -> (value: Option<u8>)
        requires
            self.wf(),
            index < 2 * LIGHT_SECTION_BYTES,
        ensures
            value == level(self.section(section_y as int), index as int),
    {
        match self.data.get(&section_y) {
            Some(data) => Some(nibble_at(data, index)),
            None => if self.empty.contains(&section_y) {
                Some(0)
            } else {
                None
            },
        }
    }
}

/// Borrowed raw light data decoded from one Minecraft light packet.
pub struct PacketLightData<'a> {
    pub sky_present: &'a [usize],
    pub block_present: &'a [usize],
    pub empty_sky: &'a [usize],
    pub empty_block: &'a [usize],
    pub sky_updates: &'a [Box<[u8]>],
    pub block_updates: &'a [Box<[u8]>],
}

/// Whether every section that a packet brings light of has a number.
pub open spec fn packet_fits(min_y: i32, data: PacketLightData<'_>) -> bool {
    let first = first_section(min_y as int);
    &&& updates_fit(first, data.sky_present@, data.sky_updates@)
    &&& updates_fit(first, data.block_present@, data.block_updates@)
    &&& mask_fits(first, data.empty_sky@)
    &&& mask_fits(first, data.empty_block@)
}

/// Whether every section that a mask selects has a number.
fn mask_is_storable(min_section: i32, masks: &[usize]) -> (storable: bool)
    ensures
        storable == mask_fits(min_section as int, masks@),
{
    let mut i: usize = 0;
    while i < masks.len()
        invariant
            i <= masks@.len(),
            forall|k: int|
                0 <= k < i ==> i32::MIN <= #[trigger] masked_section(min_section as int, masks@[k])
                    <= i32::MAX,
        decreases masks@.len() - i,
    {
        let section: i64 = min_section as i64 + (masks[i] as i32) as i64;
        assert(section == masked_section(min_section as int, masks@[i as int]));
        if section < i32::MIN as i64 || section > i32::MAX as i64 {
            return false;
        }
        i = i + 1;
    }
    true
}

/// Whether every well-formed update is meant for a section that has a number.
fn updates_are_storable(min_section: i32, masks: &[usize], updates: &[Box<[u8]>]) -> (storable: bool)
    ensures
        storable == updates_fit(min_section as int, masks@, updates@),
{
    let mut i: usize = 0;
    while i < masks.len() && i < updates.len()
        invariant
            i <= paired(masks@, updates@),
            forall|k: int|
                0 <= k < i && updates@[k]@.len() == LIGHT_SECTION_BYTES ==> i32::MIN
                    <= #[trigger] masked_section(min_section as int, masks@[k]) <= i32::MAX,
        decreases masks@.len() - i,
    {
        let update: &[u8] = &updates[i];
        let section: i64 = min_section as i64 + (masks[i] as i32) as i64;
        assert(section == masked_section(min_section as int, masks@[i as int]));
        if update.len() == LIGHT_SECTION_BYTES && (section < i32::MIN as i64 || section
            > i32::MAX as i64) {
            return false;
        }
        i = i + 1;
    }
    true
}

/// Whether every section that a packet brings light of has a number, so that
/// the packet can be applied.
pub fn packet_is_storable(min_y: i32, data: &PacketLightData<'_>) -> (storable: bool)
    ensures
        storable == packet_fits(min_y, *data),
{
    let min_section: i32 = min_y.checked_div_euclid(SECTION_EDGE).unwrap() - 1;
    updates_are_storable(min_section, data.sky_present, data.sky_updates) && updates_are_storable(
        min_section,
        data.block_present,
        data.block_updates,
    ) && mask_is_storable(min_section, data.empty_sky) && mask_is_storable(
        min_section,
        data.empty_block,
    )
}

/// Whether a packet brings light of section `y`.
pub open spec fn packet_covers(min_y: i32, data: PacketLightData<'_>, y: int) -> bool {
    let first = first_section(min_y as int);
    ||| selects(data.empty_sky@, first, y, data.empty_sky@.len() as int)
    ||| selects(data.empty_block@, first, y, data.empty_block@.len() as int)
    ||| update_for(data.sky_present@, data.sky_updates@, first, y) is Some
    ||| update_for(data.block_present@, data.block_updates@, first, y) is Some
}

/// The light of one chunk.
#[derive(Debug)]
struct ChunkLight {
    sky: SectionStore,
    block: SectionStore,
    /// For each section the cells whose block changed after its light was
    /// received.
    stale: HashMap<i32, HashSet<usize>>,
}

impl ChunkLight {
    spec fn wf(self) -> bool {
        self.sky.wf() && self.block.wf()
    }

    spec fn is_stale(self, y: int, index: int) -> bool {
        &&& i32::MIN <= y <= i32::MAX
        &&& 0 <= index < 4096
        &&& self.stale@.contains_key(y as i32)
        &&& self.stale@[y as i32]@.contains(index as usize)
    }

    fn new() -> (chunk: Self)
        ensures
            chunk.wf(),
            forall|y: int| #[trigger] chunk.sky.section(y) == SectionLight::Unknown,
            forall|y: int| #[trigger] chunk.block.section(y) == SectionLight::Unknown,
            forall|y: int, index: int| !(#[trigger] chunk.is_stale(y, index)),
    {
        ChunkLight { sky: SectionStore::new(), block: SectionStore::new(), stale: HashMap::new() }
    }

    /// Forgets which cells of the selected sections are stale.
    fn refresh_selected(&mut self, masks: &[usize], min_section: i32)
        requires
            mask_fits(min_section as int, masks@),
        ensures
            final(self).sky == old(self).sky,
            final(self).block == old(self).block,
            forall|y: int, index: int| #[trigger]
                final(self).is_stale(y, index) == (old(self).is_stale(y, index) && !selects(
                    masks@,
                    min_section as int,
                    y,
                    masks@.len() as int,
                )),
    {
        let mut i: usize = 0;
        while i < masks.len()
            invariant
                i <= masks@.len(),
                mask_fits(min_section as int, masks@),
                self.sky == old(self).sky,
                self.block == old(self).block,
                forall|y: int, index: int| #[trigger]
                    self.is_stale(y, index) == (old(self).is_stale(y, index) && !selects(
                        masks@,
                        min_section as int,
                        y,
                        i as int,
                    )),
            decreases masks@.len() - i,
        {
            let ghost before = *self;
            assert(i32::MIN <= masked_section(min_section as int, masks@[i as int]) <= i32::MAX);
            let section: i32 = min_section + masks[i] as i32;
            self.stale.remove(&section);
            assert forall|y: int, index: int| #[trigger]
                self.is_stale(y, index) == (old(self).is_stale(y, index) && !selects(
                    masks@,
                    min_section as int,
                    y,
                    i + 1,
                )) by {
                assert(before.is_stale(y, index) == (old(self).is_stale(y, index) && !selects(
                    masks@,
                    min_section as int,
                    y,
                    i as int,
                )));
                if y == section {
                    assert(masked_section(min_section as int, masks@[i as int]) == y);
                } else {
                    assert(self.is_stale(y, index) == before.is_stale(y, index));
                    if selects(masks@, min_section as int, y, i + 1) {
                        let k = choose|k: int|
                            0 <= k < i + 1 && #[trigger] masked_section(
                                min_section as int,
                                masks@[k],
                            ) == y;
                        assert(k < i);
                    }
                }
            }
            i = i + 1;
        }
    }

    /// Forgets which cells are stale in the sections with a well-formed
    /// update.
    fn refresh_updated(&mut self, masks: &[usize], updates: &[Box<[u8]>], min_section: i32)
        requires
            updates_fit(min_section as int, masks@, updates@),
        ensures
            final(self).sky == old(self).sky,
            final(self).block == old(self).block,
            forall|y: int, index: int| #[trigger]
                final(self).is_stale(y, index) == (old(self).is_stale(y, index) && update_for(
                    masks@,
                    updates@,
                    min_section as int,
                    y,
                ) is None),
    {
        let mut i: usize = 0;
        while i < masks.len() && i < updates.len()
            invariant
                i <= paired(masks@, updates@),
                updates_fit(min_section as int, masks@, updates@),
                self.sky == old(self).sky,
                self.block == old(self).block,
                forall|y: int, index: int| #[trigger]
                    self.is_stale(y, index) == (old(self).is_stale(y, index) && last_update(
                        masks@,
                        updates@,
                        min_section as int,
                        y,
                        i as nat,
                    ) is None),
            decreases masks@.len() - i,
        {
            let ghost before = *self;
            let update: &[u8] = &updates[i];
            if update.len() == LIGHT_SECTION_BYTES {
                assert(i32::MIN <= masked_section(min_section as int, masks@[i as int])
                    <= i32::MAX);
                let section: i32 = min_section + masks[i] as i32;
                self.stale.remove(&section);
                assert forall|y: int, index: int| y != section implies #[trigger] self.is_stale(
                    y,
                    index,
                ) == before.is_stale(y, index) by {}
            }
            assert forall|y: int, index: int| #[trigger]
                self.is_stale(y, index) == (old(self).is_stale(y, index) && last_update(
                    masks@,
                    updates@,
                    min_section as int,
                    y,
                    (i + 1) as nat,
                ) is None) by {
                assert(before.is_stale(y, index) == (old(self).is_stale(y, index) && last_update(
                    masks@,
                    updates@,
                    min_section as int,
                    y,
                    i as nat,
                ) is None));
            }
            i = i + 1;
        }
    }

    /// Marks one cell as stale.
    fn mark_stale(&mut self, section_y: i32, index: usize)
        requires
            index < 4096,
        ensures
            final(self).sky == old(self).sky,
            final(self).block == old(self).block,
            forall|y: int, i: int| #[trigger]
                final(self).is_stale(y, i) == (old(self).is_stale(y, i) || (y == section_y && i
                    == index)),
    {
        let cells = self.stale.entry(section_y).or_insert(HashSet::new());
        cells.insert(index);
        assert forall|y: int, i: int| #[trigger]
            self.is_stale(y, i) == (old(self).is_stale(y, i) || (y == section_y && i == index)) by {
            if y == section_y {
                let before = if old(self).stale@.contains_key(section_y) {
                    old(self).stale@[section_y]@
                } else {
                    Set::empty()
                };
                assert(self.stale@[section_y]@ == before.insert(index));
            }
        }
    }

    /// Applies the four masks and two ordered arrays of a light packet.
    fn apply(&mut self, min_y: i32, data: &PacketLightData<'_>)
        requires
            old(self).wf(),
            packet_fits(min_y, *data),
        ensures
            final(self).wf(),
            forall|y: int| #[trigger]
                final(self).sky.section(y) == section_after(
                    old(self).sky.section(y),
                    data.empty_sky@,
                    data.sky_present@,
                    data.sky_updates@,
                    first_section(min_y as int),
                    y,
                ),
            forall|y: int| #[trigger]
                final(self).block.section(y) == section_after(
                    old(self).block.section(y),
                    data.empty_block@,
                    data.block_present@,
                    data.block_updates@,
                    first_section(min_y as int),
                    y,
                ),
            forall|y: int, index: int| #[trigger]
                final(self).is_stale(y, index) == (old(self).is_stale(y, index) && !packet_covers(
                    min_y,
                    *data,
                    y,
                )),
    {
        let min_section: i32 = min_y.checked_div_euclid(SECTION_EDGE).unwrap() - 1;
        self.sky.clear_sections(data.empty_sky, min_section);
        self.block.clear_sections(data.empty_block, min_section);
        self.sky.insert_sections(data.sky_present, data.sky_updates, min_section);
        self.block.insert_sections(data.block_present, data.block_updates, min_section);
        self.refresh_selected(data.empty_sky, min_section);
        self.refresh_selected(data.empty_block, min_section);
        self.refresh_updated(data.sky_present, data.sky_updates, min_section);
        self.refresh_updated(data.block_present, data.block_updates, min_section);
    }
}

/// The ticks of a Minecraft day.
pub const DAY_TICKS: u64 = 24_000;

/// The clock reading assumed before the server sends one: noon.
pub const NOON_TICKS: u64 = 6_000;

/// The tick within the day that a clock shows: noon is at tick 6,000, midnight
/// at tick 18,000.
pub open spec fn day_tick_of(total_ticks: int) -> int {
    total_ticks % 24_000
}

/// The ticks that a clock shows after more ticks. The count stops at its
/// largest value.
pub open spec fn ticks_after(total_ticks: int, more: nat) -> int {
    if total_ticks + more <= u64::MAX {
        total_ticks + more
    } else {
        u64::MAX as int
    }
}

/// The server clock used to scale the contribution of sky light. `F` is the
/// caller's type for fractions of a tick.
#[derive(Clone, Copy, Debug, PartialEq, Eq)]
pub struct WorldTime<F> {
    pub total_ticks: u64,
    pub partial_tick: F,
    pub rate: F,
}

impl<F> WorldTime<F> {
    /// Noon on a clock with the given fraction and rate.
    pub fn noon(partial_tick: F, rate: F) -> (time: Self)
        ensures
            time == (WorldTime { total_ticks: 6_000, partial_tick, rate }),
    {
        WorldTime { total_ticks: NOON_TICKS, partial_tick, rate }
    }

    /// The tick within the current day.
    pub fn day_tick(&self) -> (tick: u64)
        ensures
            tick == day_tick_of(self.total_ticks as int),
    {
        self.total_ticks % DAY_TICKS
    }

    /// This clock after `whole_ticks` more ticks and the given fraction. The
    /// tick count stops at its largest value; the rate stays.
    pub fn advance(self, whole_ticks: u64, partial_tick: F) -> (later: Self)
        ensures
            later.total_ticks == ticks_after(self.total_ticks as int, whole_ticks as nat),
            later.partial_tick == partial_tick,
            later.rate == self.rate,
    {
        WorldTime {
            total_ticks: self.total_ticks.saturating_add(whole_ticks),
            partial_tick,
            rate: self.rate,
        }
    }
}

/// A clock reading and the moment of its arrival. `I` is the caller's type
/// for moments.
#[derive(Clone, Copy, Debug, PartialEq, Eq)]
pub struct ClockAnchor<F, I> {
    pub time: WorldTime<F>,
    pub received_at: I,
}

/// The map key of a chunk.
spec fn chunk_key_of(x: i32, z: i32) -> int {
    x * 0x1_0000_0000 + z + 0x8000_0000
}

fn chunk_key(x: i32, z: i32) -> (key: i64)
    ensures
        key == chunk_key_of(x, z),
{
    x as i64 * 0x1_0000_0000 + (z as i64 + 0x8000_0000)
}

/// The light that a store reports for a cell with the given sky and block
/// sections: none while the sky section is unknown, and no block light while
/// only the block section is unknown.
pub open spec fn levels_of(sky: SectionLight, block: SectionLight, index: int) -> Option<
    LightLevels,
> {
    match level(sky, index) {
        None => None,
        Some(sky_level) => Some(
            LightLevels {
                block: match level(block, index) {
                    Some(block_level) => block_level,
                    None => 0,
                },
                sky: sky_level,
            },
        ),
    }
}

/// Light data associated with the chunks currently known to the client, and
/// the latest clock reading.
///
/// A 16x16x16 section needs exactly 2,048 bytes for each kind of light. The
/// maps omit explicitly empty sections instead of retaining zero-filled data.
#[derive(Debug)]
pub struct LightStore<F, I> {
    chunks: HashMap<i64, ChunkLight>,
    time: Option<ClockAnchor<F, I>>,
}

impl<F, I> LightStore<F, I> {
    /// Every stored section is complete.
    pub closed spec fn wf(self) -> bool {
        forall|key: i64| #[trigger] self.chunks@.contains_key(key) ==> self.chunks@[key].wf()
    }

    /// What is known of the sky light of a section.
    pub closed spec fn sky(self, chunk_x: i32, chunk_z: i32, y: int) -> SectionLight {
        let key = chunk_key_of(chunk_x, chunk_z) as i64;
        if self.chunks@.contains_key(key) {
            self.chunks@[key].sky.section(y)
        } else {
            SectionLight::Unknown
        }
    }

    /// What is known of the block light of a section.
    pub closed spec fn block(self, chunk_x: i32, chunk_z: i32, y: int) -> SectionLight {
        let key = chunk_key_of(chunk_x, chunk_z) as i64;
        if self.chunks@.contains_key(key) {
            self.chunks@[key].block.section(y)
        } else {
            SectionLight::Unknown
        }
    }

    /// Whether the light of a cell of a section waits for a packet.
    pub closed spec fn cell_is_stale(
        self,
        chunk_x: i32,
        chunk_z: i32,
        y: int,
        index: int,
    ) -> bool {
        let key = chunk_key_of(chunk_x, chunk_z) as i64;
        self.chunks@.contains_key(key) && self.chunks@[key].is_stale(y, index)
    }

    /// Whether the light of a position waits for a packet.
    pub open spec fn is_stale(self, p: BlockPos) -> bool {
        self.cell_is_stale(
            section_of(p.x as int) as i32,
            section_of(p.z as int) as i32,
            section_of(p.y as int),
            cell_index(p),
        )
    }

    /// The latest clock reading.
    pub closed spec fn clock(self) -> Option<ClockAnchor<F, I>> {
        self.time
    }

    /// Whether the light of another store is known to this one in the same
    /// way, for every section outside chunk `(chunk_x, chunk_z)`.
    pub open spec fn same_light_outside(self, other: Self, chunk_x: i32, chunk_z: i32) -> bool {
        forall|x: i32, z: i32|
            !(x == chunk_x && z == chunk_z) ==> #[trigger] self.same_light_in(other, x, z)
    }

    /// Whether the light of one chunk is known to both stores in the same way.
    pub open spec fn same_light_in(self, other: Self, x: i32, z: i32) -> bool {
        forall|y: int|
            #![trigger self.sky(x, z, y)]
            #![trigger self.block(x, z, y)]
            self.sky(x, z, y) == other.sky(x, z, y) && self.block(x, z, y) == other.block(x, z, y)
                && forall|index: int| #[trigger]
                self.cell_is_stale(x, z, y, index) == other.cell_is_stale(x, z, y, index)
    }

    /// Whether no light is known at all.
    pub open spec fn is_unlit(self) -> bool {
        forall|x: i32, z: i32| #[trigger] self.is_unlit_in(x, z)
    }

    /// Whether no light of a chunk is known.
    pub open spec fn is_unlit_in(self, x: i32, z: i32) -> bool {
        &&& forall|y: int| #[trigger] self.sky(x, z, y) == SectionLight::Unknown
        &&& forall|y: int| #[trigger] self.block(x, z, y) == SectionLight::Unknown
        &&& forall|y: int, index: int| !(#[trigger] self.cell_is_stale(x, z, y, index))
    }

    /// The light that the store reports for a position.
    pub open spec fn light(self, p: BlockPos) -> Option<LightLevels> {
        let x = section_of(p.x as int) as i32;
        let z = section_of(p.z as int) as i32;
        let y = section_of(p.y as int);
        if self.is_stale(p) {
            None
        } else {
            levels_of(self.sky(x, z, y), self.block(x, z, y), cell_index(p))
        }
    }

    /// Whether `after` is this store once a light packet was applied.
    pub open spec fn packet_applied(
        self,
        after: Self,
        chunk_x: i32,
        chunk_z: i32,
        min_y: i32,
        data: PacketLightData<'_>,
    ) -> bool {
        let first = first_section(min_y as int);
        &&& forall|y: int| #[trigger]
            after.sky(chunk_x, chunk_z, y) == section_after(
                self.sky(chunk_x, chunk_z, y),
                data.empty_sky@,
                data.sky_present@,
                data.sky_updates@,
                first,
                y,
            )
        &&& forall|y: int| #[trigger]
            after.block(chunk_x, chunk_z, y) == section_after(
                self.block(chunk_x, chunk_z, y),
                data.empty_block@,
                data.block_present@,
                data.block_updates@,
                first,
                y,
            )
        &&& forall|y: int, index: int| #[trigger]
            after.cell_is_stale(chunk_x, chunk_z, y, index) == (self.cell_is_stale(
                chunk_x,
                chunk_z,
                y,
                index,
            ) && !packet_covers(min_y, data, y))
        &&& after.same_light_outside(self, chunk_x, chunk_z)
        &&& after.clock() == self.clock()
    }

    /// Whether `after` is this store once the light of a position was marked
    /// as out of date.
    pub open spec fn invalidated(self, after: Self, p: BlockPos) -> bool {
        &&& forall|x: i32, z: i32, y: int, index: int| #[trigger]
            after.cell_is_stale(x, z, y, index) == (self.cell_is_stale(x, z, y, index) || (x
                == section_of(p.x as int) && z == section_of(p.z as int) && y == section_of(
                p.y as int,
            ) && index == cell_index(p)))
        &&& forall|x: i32, z: i32, y: int| #[trigger] after.sky(x, z, y) == self.sky(x, z, y)
        &&& forall|x: i32, z: i32, y: int| #[trigger] after.block(x, z, y) == self.block(x, z, y)
        &&& after.clock() == self.clock()
    }

    /// A store without light and without a clock reading.
    pub fn new() -> (store: Self)
        ensures
            store.wf(),
            store.is_unlit(),
            store.clock() is None,
    {
        LightStore { chunks: HashMap::new(), time: None }
    }

    /// Forgets all light and the clock reading.
    pub fn clear(&mut self)
        ensures
            final(self).wf(),
            final(self).is_unlit(),
            final(self).clock() is None,
    {
        self.chunks.clear();
        self.time = None;
    }

    /// Clear streamed light while retaining the latest clock anchor. Respawns
    /// can replace the client world before the next time packet arrives.
    pub fn clear_lighting(&mut self)
        ensures
            final(self).wf(),
            final(self).is_unlit(),
            final(self).clock() == old(self).clock(),
    {
        self.chunks.clear();
    }

    /// Forgets the light of one chunk.
    pub fn remove_chunk(&mut self, chunk_x: i32, chunk_z: i32)
        requires
            old(self).wf(),
        ensures
            final(self).wf(),
            final(self).is_unlit_in(chunk_x, chunk_z),
            final(self).same_light_outside(*old(self), chunk_x, chunk_z),
            final(self).clock() == old(self).clock(),
    {
        let key = chunk_key(chunk_x, chunk_z);
        self.chunks.remove(&key);
    }

    /// Keeps a clock reading together with the moment of its arrival.
    pub fn set_time(&mut self, time: WorldTime<F>, received_at: I)
        requires
            old(self).wf(),
        ensures
            final(self).wf(),
            final(self).clock() == Some(ClockAnchor { time, received_at }),
            forall|x: i32, z: i32| #[trigger] final(self).same_light_in(*old(self), x, z),
    {
        self.time = Some(ClockAnchor { time, received_at });
    }

    /// Whether the server has sent a clock reading.
    pub fn has_received_time(&self) -> (received: bool)
        ensures
            received == self.clock() is Some,
    {
        self.time.is_some()
    }

    /// Marks the light of one position as out of date: the block there has
    /// changed, and the light packet that follows from it is still to come.
    pub fn invalidate(&mut self, position: BlockPos)
        requires
            old(self).wf(),
        ensures
            final(self).wf(),
            old(self).invalidated(*final(self), position),
    {
        let key = chunk_key(
            position.x.checked_div_euclid(SECTION_EDGE).unwrap(),
            position.z.checked_div_euclid(SECTION_EDGE).unwrap(),
        );
        let section_y: i32 = position.y.checked_div_euclid(SECTION_EDGE).unwrap();
        let index = index_of(position);
        let chunk = self.chunks.entry(key).or_insert(ChunkLight::new());
        chunk.mark_stale(section_y, index);
    }

    /// Apply the four masks and two ordered arrays from a Minecraft light
    /// packet. `min_y` is the world's lowest block Y coordinate.
    ///
    /// Protocol mask bit zero represents the section immediately below the
    /// world's lowest actual section, hence the `min_y / 16 - 1` offset.
    pub fn apply_packet(
        &mut self,
        chunk_x: i32,
        chunk_z: i32,
        min_y: i32,
        data: PacketLightData<'_>,
    )
        requires
            old(self).wf(),
            packet_fits(min_y, data),
        ensures
            final(self).wf(),
            old(self).packet_applied(*final(self), chunk_x, chunk_z, min_y, data),
    {
        let key = chunk_key(chunk_x, chunk_z);
        let chunk = self.chunks.entry(key).or_insert(ChunkLight::new());
        chunk.apply(min_y, &data);
    }

    /// Return light data for one world position, if its streamed section is
    /// currently cached.
    ///
    /// Sparse light packets only describe changed sections. An omitted sky
    /// section is unknown, not black: returning `None` lets the renderer
    /// preserve its explicit bright startup fallback until the server gives
    /// data for this exact section. Known-empty sections still render with
    /// zero sky light.
    pub fn light_at(&self, position: BlockPos) -> (levels: Option<LightLevels>)
        requires
            self.wf(),
        ensures
            levels == self.light(position),
    {
        let key = chunk_key(
            position.x.checked_div_euclid(SECTION_EDGE).unwrap(),
            position.z.checked_div_euclid(SECTION_EDGE).unwrap(),
        );
        let section_y: i32 = position.y.checked_div_euclid(SECTION_EDGE).unwrap();
        let index = index_of(position);
        match self.chunks.get(&key) {
            None => None,
            Some(chunk) => {
                match chunk.stale.get(&section_y) {
                    Some(cells) => {
                        if cells.contains(&index) {
                            return None;
                        }
                    },
                    None => {},
                }
                match chunk.sky.light_value(section_y, index) {
                    None => None,
                    Some(sky) => {
                        let block: u8 = match chunk.block.light_value(section_y, index) {
                            Some(block) => block,
                            None => 0,
                        };
                        Some(LightLevels::new(block, sky))
                    },
                }
            },
        }
    }
}

/// Whether `time` is what a clock shows: noon before the first reading, else
/// the latest reading advanced by the ticks that have passed since.
pub open spec fn is_time<F, I, E: Fn(ClockAnchor<F, I>) -> (u64, F)>(
    clock: Option<ClockAnchor<F, I>>,
    no_partial_tick: F,
    normal_rate: F,
    elapsed: E,
    time: WorldTime<F>,
) -> bool {
    match clock {
        None => time == (WorldTime {
            total_ticks: 6_000,
            partial_tick: no_partial_tick,
            rate: normal_rate,
        }),
        Some(anchor) => exists|passed: (u64, F)| #[trigger]
            call_ensures(elapsed, (anchor,), passed) && time == (WorldTime {
                total_ticks: ticks_after(anchor.time.total_ticks as int, passed.0 as nat) as u64,
                partial_tick: passed.1,
                rate: anchor.time.rate,
            }),
    }
}

impl<F: Copy, I: Copy> LightStore<F, I> {
    /// The server's time. `elapsed` gives the ticks that have passed since a
    /// reading arrived, its own fraction of a tick included: whole ticks and
    /// what is left. `no_partial_tick` and `normal_rate` describe the clock
    /// that is assumed to show noon before the first reading.
    pub fn time<E: Fn(ClockAnchor<F, I>) -> (u64, F)>(
        &self,
        no_partial_tick: F,
        normal_rate: F,
        elapsed: E,
    ) -> (time: WorldTime<F>)
        requires
            forall|anchor: ClockAnchor<F, I>| call_requires(elapsed, (anchor,)),
        ensures
            is_time(self.clock(), no_partial_tick, normal_rate, elapsed, time),
    {
        match self.time {
            None => WorldTime::noon(no_partial_tick, normal_rate),
            Some(anchor) => {
                let passed = elapsed(anchor);
                assert(call_ensures(elapsed, (anchor,), passed));
                anchor.time.advance(passed.0, passed.1)
            },
        }
    }
}

impl<F, I> Default for LightStore<F, I> {
    fn default() -> (store: Self)
        ensures
            store.wf(),
            store.is_unlit(),
            store.clock() is None,
    {
        LightStore::new()
    }
}

/// The index of a cell within its section.
fn index_of(p: BlockPos) -> (index: usize)
    ensures
        index == cell_index(p),
        index < 4096,
{
    let local_x: usize = p.x.checked_rem_euclid(SECTION_EDGE).unwrap() as usize;
    let local_y: usize = p.y.checked_rem_euclid(SECTION_EDGE).unwrap() as usize;
    let local_z: usize = p.z.checked_rem_euclid(SECTION_EDGE).unwrap() as usize;
    local_x + 16 * local_z + 256 * local_y
}

/// Whether a position lies in a chunk.
pub open spec fn in_chunk(p: BlockPos, chunk_x: i32, chunk_z: i32) -> bool {
    section_of(p.x as int) == chunk_x && section_of(p.z as int) == chunk_z
}

/// A section holds 4,096 cells, and no two positions share chunk, section and
/// index.
pub proof fn law_cell_index_is_unique(p: BlockPos, q: BlockPos)
    ensures
        0 <= cell_index(p) < 4096,
        section_of(p.x as int) == section_of(q.x as int) && section_of(p.y as int) == section_of(
            q.y as int,
        ) && section_of(p.z as int) == section_of(q.z as int) && cell_index(p) == cell_index(q)
            ==> p == q,
{
}

/// Bit `b` of a packet's mask selects the section whose lowest layer lies
/// `16 * (b - 1)` blocks above the bottom of the world's lowest section.
pub proof fn law_mask_bits_select_sections(min_y: i32, mask_index: usize)
    requires
        mask_index <= i32::MAX,
    ensures
        16 * masked_section(first_section(min_y as int), mask_index) == 16 * (min_y as int / 16)
            + 16 * (mask_index - 1),
{
}

/// Every reported light level fits in four bits.
pub proof fn law_levels_fit_four_bits<F, I>(store: LightStore<F, I>, p: BlockPos)
    ensures
        match store.light(p) {
            Some(levels) => levels.block <= 15 && levels.sky <= 15,
            None => true,
        },
{
}

/// Reading a section back gives what the packet wrote.
pub proof fn law_packet_is_read_back<F, I>(
    before: LightStore<F, I>,
    after: LightStore<F, I>,
    chunk_x: i32,
    chunk_z: i32,
    min_y: i32,
    data: PacketLightData<'_>,
    p: BlockPos,
)
    requires
        before.packet_applied(after, chunk_x, chunk_z, min_y, data),
        in_chunk(p, chunk_x, chunk_z),
    ensures
        ({
            let first = first_section(min_y as int);
            let y = section_of(p.y as int);
            let sky = update_for(data.sky_present@, data.sky_updates@, first, y);
            let block = update_for(data.block_present@, data.block_updates@, first, y);
            sky is Some && block is Some ==> after.light(p) == Some(
                LightLevels {
                    block: nibble(block->0, cell_index(p)),
                    sky: nibble(sky->0, cell_index(p)),
                },
            )
        }),
{
}

/// A section that a packet declares empty is dark, whatever was known of it;
/// unlike an unknown section it has a light level.
pub proof fn law_empty_sections_are_dark<F, I>(
    before: LightStore<F, I>,
    after: LightStore<F, I>,
    chunk_x: i32,
    chunk_z: i32,
    min_y: i32,
    data: PacketLightData<'_>,
    p: BlockPos,
)
    requires
        before.packet_applied(after, chunk_x, chunk_z, min_y, data),
        in_chunk(p, chunk_x, chunk_z),
        selects(
            data.empty_sky@,
            first_section(min_y as int),
            section_of(p.y as int),
            data.empty_sky@.len() as int,
        ),
        update_for(
            data.sky_present@,
            data.sky_updates@,
            first_section(min_y as int),
            section_of(p.y as int),
        ) is None,
    ensures
        after.light(p) is Some,
        after.light(p)->0.sky == 0,
{
}

/// A packet changes the light of no section that it leaves out, and of no
/// other chunk.
pub proof fn law_packets_are_local<F, I>(
    before: LightStore<F, I>,
    after: LightStore<F, I>,
    chunk_x: i32,
    chunk_z: i32,
    min_y: i32,
    data: PacketLightData<'_>,
    p: BlockPos,
)
    requires
        before.packet_applied(after, chunk_x, chunk_z, min_y, data),
        !in_chunk(p, chunk_x, chunk_z) || !packet_covers(min_y, data, section_of(p.y as int)),
    ensures
        after.light(p) == before.light(p),
        after.is_stale(p) == before.is_stale(p),
{
    let x = section_of(p.x as int) as i32;
    let z = section_of(p.z as int) as i32;
    if !in_chunk(p, chunk_x, chunk_z) {
        assert(after.same_light_in(before, x, z));
        assert(after.sky(x, z, section_of(p.y as int)) == before.sky(x, z, section_of(p.y as int)));
    }
}

/// A changed block makes only its own light unknown.
pub proof fn law_invalidation_is_local<F, I>(
    before: LightStore<F, I>,
    after: LightStore<F, I>,
    p: BlockPos,
    q: BlockPos,
)
    requires
        before.invalidated(after, p),
    ensures
        after.light(p) is None,
        q != p ==> after.light(q) == before.light(q),
{
    law_cell_index_is_unique(p, q);
}

/// The light of a changed block stays unknown until a packet brings light of
/// its section; then it is what the packets say.
pub proof fn law_stale_until_the_next_packet<F, I>(
    before: LightStore<F, I>,
    after: LightStore<F, I>,
    chunk_x: i32,
    chunk_z: i32,
    min_y: i32,
    data: PacketLightData<'_>,
    p: BlockPos,
)
    requires
        before.packet_applied(after, chunk_x, chunk_z, min_y, data),
        before.is_stale(p),
    ensures
        after.is_stale(p) <==> !(in_chunk(p, chunk_x, chunk_z) && packet_covers(
            min_y,
            data,
            section_of(p.y as int),
        )),
        after.is_stale(p) ==> after.light(p) is None,
{
    let x = section_of(p.x as int) as i32;
    let z = section_of(p.z as int) as i32;
    if !in_chunk(p, chunk_x, chunk_z) {
        law_packets_are_local(before, after, chunk_x, chunk_z, min_y, data, p);
    }
}

/// A call that changes a store.
pub enum LightCall<'a, F, I> {
    Clear,
    ClearLighting,
    RemoveChunk { chunk_x: i32, chunk_z: i32 },
    SetTime { time: WorldTime<F>, received_at: I },
    Invalidate { position: BlockPos },
    ApplyPacket { chunk_x: i32, chunk_z: i32, min_y: i32, data: PacketLightData<'a> },
}

impl<'a, F, I> LightCall<'a, F, I> {
    /// Whether the call can lead from one store to the other.
    pub open spec fn leads(self, before: LightStore<F, I>, after: LightStore<F, I>) -> bool {
        match self {
            LightCall::Clear => after.is_unlit() && after.clock() is None,
            LightCall::ClearLighting => after.is_unlit() && after.clock() == before.clock(),
            LightCall::RemoveChunk { chunk_x, chunk_z } => after.is_unlit_in(chunk_x, chunk_z)
                && after.same_light_outside(before, chunk_x, chunk_z) && after.clock()
                == before.clock(),
            LightCall::SetTime { time, received_at } => after.clock() == Some(
                ClockAnchor { time, received_at },
            ) && forall|x: i32, z: i32| #[trigger] after.same_light_in(before, x, z),
            LightCall::Invalidate { position } => before.invalidated(after, position),
            LightCall::ApplyPacket { chunk_x, chunk_z, min_y, data } => before.packet_applied(
                after,
                chunk_x,
                chunk_z,
                min_y,
                data,
            ),
        }
    }

    /// Whether the call drops the light of a position's chunk.
    pub open spec fn forgets(self, p: BlockPos) -> bool {
        match self {
            LightCall::Clear => true,
            LightCall::ClearLighting => true,
            LightCall::RemoveChunk { chunk_x, chunk_z } => in_chunk(p, chunk_x, chunk_z),
            _ => false,
        }
    }

    /// Whether the call marks the light of a position as out of date.
    pub open spec fn invalidates(self, p: BlockPos) -> bool {
        match self {
            LightCall::Invalidate { position } => position == p,
            _ => false,
        }
    }

    /// Whether the call brings light of a position's section.
    pub open spec fn covers(self, p: BlockPos) -> bool {
        match self {
            LightCall::ApplyPacket { chunk_x, chunk_z, min_y, data } => in_chunk(
                p,
                chunk_x,
                chunk_z,
            ) && packet_covers(min_y, data, section_of(p.y as int)),
            _ => false,
        }
    }

    /// What the call says of the sky light of a position's section.
    pub open spec fn sky_told(self, p: BlockPos) -> Option<SectionLight> {
        match self {
            LightCall::ApplyPacket { chunk_x, chunk_z, min_y, data } => if in_chunk(
                p,
                chunk_x,
                chunk_z,
            ) {
                told(
                    data.empty_sky@,
                    data.sky_present@,
                    data.sky_updates@,
                    first_section(min_y as int),
                    section_of(p.y as int),
                )
            } else {
                None
            },
            _ => None,
        }
    }

    /// What the call says of the block light of a position's section.
    pub open spec fn block_told(self, p: BlockPos) -> Option<SectionLight> {
        match self {
            LightCall::ApplyPacket { chunk_x, chunk_z, min_y, data } => if in_chunk(
                p,
                chunk_x,
                chunk_z,
            ) {
                told(
                    data.empty_block@,
                    data.block_present@,
                    data.block_updates@,
                    first_section(min_y as int),
                    section_of(p.y as int),
                )
            } else {
                None
            },
            _ => None,
        }
    }
}

/// Whether `stores` holds a new store and what it was after each of `calls`.
pub open spec fn is_light_history<F, I>(
    stores: Seq<LightStore<F, I>>,
    calls: Seq<LightCall<'_, F, I>>,
) -> bool {
    &&& stores.len() == calls.len() + 1
    &&& stores[0].is_unlit()
    &&& stores[0].clock() is None
    &&& forall|k: int|
        0 <= k < calls.len() ==> (#[trigger] calls[k]).leads(stores[k], stores[k + 1])
}

/// Whether call `k` is, of the first `n`, the last that says something of the
/// sky light of a position's section, and the chunk was not dropped since.
pub open spec fn sky_stands<F, I>(
    calls: Seq<LightCall<'_, F, I>>,
    p: BlockPos,
    n: int,
    k: int,
) -> bool {
    &&& 0 <= k < n
    &&& calls[k].sky_told(p) is Some
    &&& forall|j: int|
        k < j < n ==> (#[trigger] calls[j]).sky_told(p) is None && !calls[j].forgets(p)
}

/// Whether call `k` is, of the first `n`, the last that says something of the
/// block light of a position's section, and the chunk was not dropped since.
pub open spec fn block_stands<F, I>(
    calls: Seq<LightCall<'_, F, I>>,
    p: BlockPos,
    n: int,
    k: int,
) -> bool {
    &&& 0 <= k < n
    &&& calls[k].block_told(p) is Some
    &&& forall|j: int|
        k < j < n ==> (#[trigger] calls[j]).block_told(p) is None && !calls[j].forgets(p)
}

/// Whether call `k` is one of the first `n` and marks the light of a position
/// as out of date, and no packet brought light of its section since.
pub open spec fn waits<F, I>(
    calls: Seq<LightCall<'_, F, I>>,
    p: BlockPos,
    n: int,
    k: int,
) -> bool {
    &&& 0 <= k < n
    &&& calls[k].invalidates(p)
    &&& forall|j: int| k < j < n ==> !(#[trigger] calls[j]).covers(p)
}

/// Whether call `k` is one of the first `n` and marks the light of a position
/// as out of date, and nothing ended that since.
spec fn holds_up<F, I>(
    calls: Seq<LightCall<'_, F, I>>,
    p: BlockPos,
    n: int,
    k: int,
) -> bool {
    waits(calls, p, n, k) && forall|j: int| k < j < n ==> !(#[trigger] calls[j]).forgets(p)
}

/// What one call does to the section and the cell of a position.
proof fn lemma_light_step<F, I>(
    call: LightCall<'_, F, I>,
    before: LightStore<F, I>,
    after: LightStore<F, I>,
    p: BlockPos,
)
    requires
        call.leads(before, after),
    ensures
        ({
            let x = section_of(p.x as int) as i32;
            let z = section_of(p.z as int) as i32;
            let y = section_of(p.y as int);
            &&& after.sky(x, z, y) == (if call.forgets(p) {
                SectionLight::Unknown
            } else {
                match call.sky_told(p) {
                    Some(section) => section,
                    None => before.sky(x, z, y),
                }
            })
            &&& after.block(x, z, y) == (if call.forgets(p) {
                SectionLight::Unknown
            } else {
                match call.block_told(p) {
                    Some(section) => section,
                    None => before.block(x, z, y),
                }
            })
            &&& after.is_stale(p) == (call.invalidates(p) || before.is_stale(p) && !call.forgets(p)
                && !call.covers(p))
        }),
{
    let x = section_of(p.x as int) as i32;
    let z = section_of(p.z as int) as i32;
    let y = section_of(p.y as int);
    match call {
        LightCall::Clear => {
            assert(after.is_unlit_in(x, z));
        },
        LightCall::ClearLighting => {
            assert(after.is_unlit_in(x, z));
        },
        LightCall::RemoveChunk { chunk_x, chunk_z } => {
            if !in_chunk(p, chunk_x, chunk_z) {
                assert(after.same_light_in(before, x, z));
                assert(after.sky(x, z, y) == before.sky(x, z, y));
            }
        },
        LightCall::SetTime { .. } => {
            assert(after.same_light_in(before, x, z));
            assert(after.sky(x, z, y) == before.sky(x, z, y));
        },
        LightCall::Invalidate { position } => {
            law_cell_index_is_unique(p, position);
        },
        LightCall::ApplyPacket { chunk_x, chunk_z, .. } => {
            if !in_chunk(p, chunk_x, chunk_z) {
                assert(after.same_light_in(before, x, z));
                assert(after.sky(x, z, y) == before.sky(x, z, y));
            }
        },
    }
}

/// What a history says of the section and the cell of a position.
proof fn lemma_light_history<F, I>(
    stores: Seq<LightStore<F, I>>,
    calls: Seq<LightCall<'_, F, I>>,
    p: BlockPos,
    n: nat,
)
    requires
        is_light_history(stores, calls),
        n <= calls.len(),
    ensures
        ({
            let x = section_of(p.x as int) as i32;
            let z = section_of(p.z as int) as i32;
            let y = section_of(p.y as int);
            let store = stores[n as int];
            &&& forall|k: int| #[trigger]
                sky_stands(calls, p, n as int, k) ==> store.sky(x, z, y) == calls[k].sky_told(p)->0
            &&& store.sky(x, z, y) == SectionLight::Unknown || exists|k: int| #[trigger]
                sky_stands(calls, p, n as int, k)
            &&& forall|k: int| #[trigger]
                block_stands(calls, p, n as int, k) ==> store.block(x, z, y)
                    == calls[k].block_told(p)->0
            &&& store.block(x, z, y) == SectionLight::Unknown || exists|k: int| #[trigger]
                block_stands(calls, p, n as int, k)
            &&& store.is_stale(p) <==> exists|k: int| #[trigger] holds_up(calls, p, n as int, k)
        }),
    decreases n,
{
    let x = section_of(p.x as int) as i32;
    let z = section_of(p.z as int) as i32;
    let y = section_of(p.y as int);
    if n == 0 {
        assert(stores[0].is_unlit_in(x, z));
    } else {
        let last = n - 1;
        let call = calls[last];
        let before = stores[last];
        let after = stores[n as int];
        lemma_light_history(stores, calls, p, last as nat);
        assert(call.leads(stores[last], stores[last + 1]));
        lemma_light_step(call, before, after, p);
        assert forall|k: int| #[trigger] sky_stands(calls, p, n as int, k) implies after.sky(x, z, y)
            == calls[k].sky_told(p)->0 by {
            if k < last {
                assert(sky_stands(calls, p, last, k));
            }
        }
        assert forall|k: int| #[trigger] block_stands(calls, p, n as int, k) implies after.block(
            x,
            z,
            y,
        ) == calls[k].block_told(p)->0 by {
            if k < last {
                assert(block_stands(calls, p, last, k));
            }
        }
        if after.sky(x, z, y) != SectionLight::Unknown {
            if call.sky_told(p) is Some {
                assert(sky_stands(calls, p, n as int, last));
            } else {
                let k = choose|k: int| #[trigger] sky_stands(calls, p, last, k);
                assert(sky_stands(calls, p, n as int, k));
            }
        }
        if after.block(x, z, y) != SectionLight::Unknown {
            if call.block_told(p) is Some {
                assert(block_stands(calls, p, n as int, last));
            } else {
                let k = choose|k: int| #[trigger] block_stands(calls, p, last, k);
                assert(block_stands(calls, p, n as int, k));
            }
        }
        if after.is_stale(p) {
            if call.invalidates(p) {
                assert(holds_up(calls, p, n as int, last));
            } else {
                let k = choose|k: int| #[trigger] holds_up(calls, p, last, k);
                assert(holds_up(calls, p, n as int, k));
            }
        }
        if exists|k: int| #[trigger] holds_up(calls, p, n as int, k) {
            let k = choose|k: int| #[trigger] holds_up(calls, p, n as int, k);
            if k < last {
                assert(holds_up(calls, p, last, k));
            }
        }
    }
}

/// Over any sequence of calls, the light of a position is known exactly when a
/// packet gave the sky light of its section since its chunk was last dropped,
/// and the position was not invalidated since a packet last brought light of
/// its section. It is then what the last packets said of each kind of light,
/// with no block light where none said anything of it, and fits in four bits.
pub proof fn law_light_follows_the_calls<F, I>(
    stores: Seq<LightStore<F, I>>,
    calls: Seq<LightCall<'_, F, I>>,
    p: BlockPos,
    n: nat,
)
    requires
        is_light_history(stores, calls),
        n <= calls.len(),
    ensures
        stores[n as int].light(p) is Some <==> (exists|k: int| #[trigger]
            sky_stands(calls, p, n as int, k)) && !(exists|k: int| #[trigger]
            waits(calls, p, n as int, k)),
        match stores[n as int].light(p) {
            Some(levels) => {
                &&& levels.sky <= 15 && levels.block <= 15
                &&& forall|k: int| #[trigger]
                    sky_stands(calls, p, n as int, k) ==> Some(levels.sky) == level(
                        calls[k].sky_told(p)->0,
                        cell_index(p),
                    )
                &&& forall|k: int| #[trigger]
                    block_stands(calls, p, n as int, k) ==> Some(levels.block) == level(
                        calls[k].block_told(p)->0,
                        cell_index(p),
                    )
                &&& !(exists|k: int| #[trigger] block_stands(calls, p, n as int, k))
                    ==> levels.block == 0
            },
            None => true,
        },
{
    lemma_light_history(stores, calls, p, n);
    law_levels_fit_four_bits(stores[n as int], p);
    if exists|k: int| #[trigger] sky_stands(calls, p, n as int, k) {
        let given = choose|k: int| #[trigger] sky_stands(calls, p, n as int, k);
        assert(calls[given].covers(p));
        if exists|k: int| #[trigger] waits(calls, p, n as int, k) {
            let k = choose|k: int| #[trigger] waits(calls, p, n as int, k);
            assert(k > given);
            assert(holds_up(calls, p, n as int, k));
        }
        if stores[n as int].is_stale(p) {
            let k = choose|k: int| #[trigger] holds_up(calls, p, n as int, k);
            assert(waits(calls, p, n as int, k));
        }
    }
}

/// The clock shows the same time of day after any whole number of days.
pub proof fn law_days_repeat(ticks: nat, days: nat)
    ensures
        day_tick_of(ticks + 24_000int * days) == day_tick_of(ticks as int),
{
}

/// A clock that advances in two steps shows the same as one that advances in
/// a single step of the same length, and never runs backwards.
pub proof fn law_clock_steps_add_up(ticks: u64, first: nat, second: nat)
    ensures
        ticks_after(ticks_after(ticks as int, first), second) == ticks_after(
            ticks as int,
            first + second,
        ),
        ticks as int <= ticks_after(ticks as int, first) <= u64::MAX,
{
}

/// The day tick of a count is the one below 24,000 that differs from it by
/// whole days. So a count below 24,000 is its own day tick: 6,000 is noon and
/// 18,000 is midnight.
pub proof fn law_day_ticks_count_from_the_last_day(ticks: nat, tick: int, days: int)
    ensures
        0 <= day_tick_of(ticks as int) < 24_000,
        ticks < 24_000 ==> day_tick_of(ticks as int) == ticks,
        0 <= tick < 24_000 && ticks == 24_000 * days + tick ==> day_tick_of(ticks as int) == tick,
        exists|whole: int| ticks == #[trigger] (24_000 * whole) + day_tick_of(ticks as int),
{
    assert(ticks == 24_000 * (ticks as int / 24_000) + day_tick_of(ticks as int));
}

/// A clock shows one tick more for every tick that passes, until its count is
/// at its largest value.
pub proof fn law_every_tick_counts(ticks: u64, passed: nat)
    ensures
        ticks + passed <= u64::MAX ==> ticks_after(ticks as int, passed) == ticks + passed,
        ticks + passed > u64::MAX ==> ticks_after(ticks as int, passed) == u64::MAX,
{
}

/// Before the first reading the clock shows noon, whatever has passed. After a
/// reading it shows what was read and the ticks that have passed since, at the
/// rate that was read.
pub proof fn law_clock_runs_from_its_reading<F, I, E: Fn(ClockAnchor<F, I>) -> (u64, F)>(
    clock: Option<ClockAnchor<F, I>>,
    no_partial_tick: F,
    normal_rate: F,
    elapsed: E,
    time: WorldTime<F>,
)
    requires
        is_time(clock, no_partial_tick, normal_rate, elapsed, time),
    ensures
        clock is None ==> day_tick_of(time.total_ticks as int) == 6_000 && time.total_ticks == 6_000
            && time.partial_tick == no_partial_tick && time.rate == normal_rate,
        clock matches Some(anchor) ==> time.rate == anchor.time.rate && exists|passed: (u64, F)|
            #[trigger] call_ensures(elapsed, (anchor,), passed) && time.partial_tick == passed.1
                && (anchor.time.total_ticks + passed.0 <= u64::MAX ==> time.total_ticks
                == anchor.time.total_ticks + passed.0),
{
}

/// Chunks and sections are sixteen blocks wide: a coordinate lies in the one
/// that starts at most fifteen blocks before it.
pub proof fn law_sections_are_sixteen_blocks(coordinate: int, section: int)
    ensures
        section_of(coordinate) == section <==> 16 * section <= coordinate < 16 * section + 16,
{
}

/// A chunk holds the columns of sixteen by sixteen blocks, at every height.
pub proof fn law_chunks_are_columns(p: BlockPos, chunk_x: i32, chunk_z: i32)
    ensures
        in_chunk(p, chunk_x, chunk_z) <==> 16 * chunk_x <= p.x < 16 * chunk_x + 16 && 16 * chunk_z
            <= p.z < 16 * chunk_z + 16,
{
}

/// Within a section cells are counted eastwards, then southwards, then
/// upwards, from zero in the lowest north-western corner.
pub proof fn law_cells_are_counted_in_order(p: BlockPos)
    ensures
        p.x as int % 16 == 0 && p.y as int % 16 == 0 && p.z as int % 16 == 0 ==> cell_index(p) == 0,
        p.x as int % 16 < 15 ==> cell_index(BlockPos { x: (p.x + 1) as i32, ..p }) == cell_index(p)
            + 1,
        p.z as int % 16 < 15 ==> cell_index(BlockPos { z: (p.z + 1) as i32, ..p }) == cell_index(p)
            + 16,
        p.y as int % 16 < 15 ==> cell_index(BlockPos { y: (p.y + 1) as i32, ..p }) == cell_index(p)
            + 256,
{
    lemma_next_in_section(p.x as int);
    lemma_next_in_section(p.y as int);
    lemma_next_in_section(p.z as int);
}

/// The coordinate after one that is not the last of its section.
proof fn lemma_next_in_section(coordinate: int)
    ensures
        coordinate % 16 < 15 ==> (coordinate + 1) % 16 == coordinate % 16 + 1,
        i32::MIN <= coordinate <= i32::MAX && coordinate % 16 < 15 ==> coordinate < i32::MAX,
{
}

/// Each byte of packed light holds two values of four bits, the earlier one in
/// its low half.
pub proof fn law_bytes_hold_two_values(bytes: Seq<u8>, k: int)
    requires
        0 <= k < bytes.len(),
    ensures
        nibble(bytes, 2 * k) < 16,
        nibble(bytes, 2 * k + 1) < 16,
        bytes[k] == 16 * nibble(bytes, 2 * k + 1) + nibble(bytes, 2 * k),
{
    assert((2 * k) / 2 == k && (2 * k + 1) / 2 == k);
}

/// Whether the bit at place `i` of a mask brings the last well-formed update of
/// the section that starts at block `bottom`, in a world whose lowest section
/// is number `lowest`.
pub open spec fn brings_last(
    masks: Seq<usize>,
    updates: Seq<Box<[u8]>>,
    lowest: int,
    bottom: int,
    i: int,
) -> bool {
    &&& 0 <= i < masks.len()
    &&& i < updates.len()
    &&& updates[i]@.len() == 2_048
    &&& masks[i] <= i32::MAX
    &&& 16 * (lowest + masks[i] - 1) == bottom
    &&& forall|k: int|
        i < k < masks.len() && k < updates.len() ==> (#[trigger] masks[k] <= i32::MAX && masks[k]
            != masks[i]) || updates[k]@.len() != 2_048
}

proof fn lemma_brings_last(
    masks: Seq<usize>,
    updates: Seq<Box<[u8]>>,
    lowest: int,
    bottom: int,
    i: int,
    n: nat,
)
    requires
        brings_last(masks, updates, lowest, bottom, i),
        i < n <= paired(masks, updates),
    ensures
        last_update(masks, updates, lowest - 1, bottom / 16, n) == Some(updates[i]@),
    decreases n,
{
    assert(masks[i] as i32 == masks[i]);
    assert(masked_section(lowest - 1, masks[i]) == bottom / 16);
    if n - 1 > i {
        lemma_brings_last(masks, updates, lowest, bottom, i, (n - 1) as nat);
        let k = n - 1;
        assert((masks[k] <= i32::MAX && masks[k] != masks[i]) || updates[k]@.len() != 2_048);
        if updates[k]@.len() == 2_048 {
            assert(masks[k] as i32 == masks[k]);
        }
    }
}

/// The light of a cell is read back from the packet that brought it: the last
/// well-formed update for its section, at the byte of the cell, in the low half
/// for an even x coordinate and in the high half for an odd one. Sky and block
/// light each come from their own list.
pub proof fn law_packet_bytes_are_read_back<F, I>(
    before: LightStore<F, I>,
    after: LightStore<F, I>,
    chunk_x: i32,
    chunk_z: i32,
    min_y: i32,
    data: PacketLightData<'_>,
    p: BlockPos,
    sky: int,
    block: int,
)
    requires
        before.packet_applied(after, chunk_x, chunk_z, min_y, data),
        16 * chunk_x <= p.x < 16 * chunk_x + 16,
        16 * chunk_z <= p.z < 16 * chunk_z + 16,
        brings_last(
            data.sky_present@,
            data.sky_updates@,
            min_y as int / 16,
            16 * (p.y as int / 16),
            sky,
        ),
    ensures
        ({
            let cell = p.x as int % 16 + 16 * (p.z as int % 16) + 256 * (p.y as int % 16);
            let odd = p.x as int % 2 == 1;
            let sky_byte = data.sky_updates@[sky]@[cell / 2];
            &&& after.light(p) matches Some(levels) && {
                &&& levels.sky == (if odd {
                    sky_byte / 16
                } else {
                    sky_byte % 16
                })
                &&& brings_last(
                    data.block_present@,
                    data.block_updates@,
                    min_y as int / 16,
                    16 * (p.y as int / 16),
                    block,
                ) ==> levels.block == (if odd {
                    data.block_updates@[block]@[cell / 2] / 16
                } else {
                    data.block_updates@[block]@[cell / 2] % 16
                })
            }
        }),
{
    let bottom = 16 * (p.y as int / 16);
    let lowest = min_y as int / 16;
    assert(bottom / 16 == section_of(p.y as int));
    lemma_brings_last(
        data.sky_present@,
        data.sky_updates@,
        lowest,
        bottom,
        sky,
        paired(data.sky_present@, data.sky_updates@),
    );
    if brings_last(data.block_present@, data.block_updates@, lowest, bottom, block) {
        lemma_brings_last(
            data.block_present@,
            data.block_updates@,
            lowest,
            bottom,
            block,
            paired(data.block_present@, data.block_updates@),
        );
    }
    let x = section_of(p.x as int) as i32;
    let z = section_of(p.z as int) as i32;
    let y = section_of(p.y as int);
    assert(x == chunk_x && z == chunk_z);
    assert(packet_covers(min_y, data, y));
    assert(after.sky(chunk_x, chunk_z, y) == SectionLight::Bytes(data.sky_updates@[sky]@));
    assert(!after.cell_is_stale(chunk_x, chunk_z, y, cell_index(p)));
}

/// A section that a packet neither updates nor lists as empty keeps its light,
/// and one that is listed as empty and not updated is dark, in each kind of
/// light.
pub proof fn law_untold_sections_keep_their_light(
    before: SectionLight,
    empty: Seq<usize>,
    masks: Seq<usize>,
    updates: Seq<Box<[u8]>>,
    min_section: int,
    y: int,
)
    requires
        forall|i: int|
            0 <= i < masks.len() ==> #[trigger] masks[i] <= i32::MAX && min_section + masks[i] != y,
        forall|i: int| 0 <= i < empty.len() ==> #[trigger] empty[i] <= i32::MAX,
    ensures
        ({
            let after = section_after(before, empty, masks, updates, min_section, y);
            let listed = exists|i: int|
                0 <= i < empty.len() && min_section + #[trigger] empty[i] == y;
            &&& listed ==> after == SectionLight::Dark
            &&& !listed ==> after == before
            &&& forall|index: int| listed ==> #[trigger] level(after, index) == Some(0u8)
        }),
{
    lemma_no_update(masks, updates, min_section, y, paired(masks, updates));
    if exists|i: int| 0 <= i < empty.len() && min_section + #[trigger] empty[i] == y {
        let i = choose|i: int| 0 <= i < empty.len() && min_section + #[trigger] empty[i] == y;
        assert(empty[i] as i32 == empty[i]);
        assert(masked_section(min_section, empty[i]) == y);
    }
    if selects(empty, min_section, y, empty.len() as int) {
        let i = choose|i: int|
            0 <= i < empty.len() && #[trigger] masked_section(min_section, empty[i]) == y;
        assert(empty[i] as i32 == empty[i]);
        assert(min_section + empty[i] == y);
    }
}

proof fn lemma_no_update(
    masks: Seq<usize>,
    updates: Seq<Box<[u8]>>,
    min_section: int,
    y: int,
    n: nat,
)
    requires
        n <= paired(masks, updates),
        forall|i: int|
            0 <= i < masks.len() ==> #[trigger] masks[i] <= i32::MAX && min_section + masks[i] != y,
    ensures
        last_update(masks, updates, min_section, y, n) is None,
    decreases n,
{
    if n > 0 {
        lemma_no_update(masks, updates, min_section, y, (n - 1) as nat);
        assert(masks[n - 1] <= i32::MAX);
        assert(masks[n - 1] as i32 == masks[n - 1]);
    }
}

/// A packet covers a section if it brings well-formed light of it or lists it
/// as empty, be it sky light or block light, and not if neither its masks nor
/// its lists name the section.
pub proof fn law_packets_cover_what_they_name(
    min_y: i32,
    data: PacketLightData<'_>,
    bottom: int,
    i: int,
)
    requires
        bottom % 16 == 0,
    ensures
        ({
            let lowest = min_y as int / 16;
            let y = bottom / 16;
            &&& brings_last(data.sky_present@, data.sky_updates@, lowest, bottom, i)
                ==> packet_covers(min_y, data, y)
            &&& brings_last(data.block_present@, data.block_updates@, lowest, bottom, i)
                ==> packet_covers(min_y, data, y)
            &&& 0 <= i < data.empty_sky@.len() && data.empty_sky@[i] <= i32::MAX && 16 * (lowest
                + data.empty_sky@[i] - 1) == bottom ==> packet_covers(min_y, data, y)
            &&& 0 <= i < data.empty_block@.len() && data.empty_block@[i] <= i32::MAX && 16 * (lowest
                + data.empty_block@[i] - 1) == bottom ==> packet_covers(min_y, data, y)
            &&& leaves_out(data.sky_present@, lowest, y) && leaves_out(
                data.block_present@,
                lowest,
                y,
            ) && leaves_out(data.empty_sky@, lowest, y) && leaves_out(data.empty_block@, lowest, y)
                ==> !packet_covers(min_y, data, y)
        }),
{
    let lowest = min_y as int / 16;
    let first = lowest - 1;
    let y = bottom / 16;
    if brings_last(data.sky_present@, data.sky_updates@, lowest, bottom, i) {
        lemma_brings_last(
            data.sky_present@,
            data.sky_updates@,
            lowest,
            bottom,
            i,
            paired(data.sky_present@, data.sky_updates@),
        );
    }
    if brings_last(data.block_present@, data.block_updates@, lowest, bottom, i) {
        lemma_brings_last(
            data.block_present@,
            data.block_updates@,
            lowest,
            bottom,
            i,
            paired(data.block_present@, data.block_updates@),
        );
    }
    if 0 <= i < data.empty_sky@.len() && data.empty_sky@[i] <= i32::MAX {
        assert(data.empty_sky@[i] as i32 == data.empty_sky@[i]);
        assert(masked_section(first, data.empty_sky@[i]) == first + data.empty_sky@[i]);
    }
    if 0 <= i < data.empty_block@.len() && data.empty_block@[i] <= i32::MAX {
        assert(data.empty_block@[i] as i32 == data.empty_block@[i]);
        assert(masked_section(first, data.empty_block@[i]) == first + data.empty_block@[i]);
    }
    if leaves_out(data.sky_present@, lowest, y) {
        lemma_left_out(data.sky_present@, data.sky_updates@, lowest, y);
    }
    if leaves_out(data.block_present@, lowest, y) {
        lemma_left_out(data.block_present@, data.block_updates@, lowest, y);
    }
    if leaves_out(data.empty_sky@, lowest, y) {
        lemma_left_out(data.empty_sky@, data.sky_updates@, lowest, y);
    }
    if leaves_out(data.empty_block@, lowest, y) {
        lemma_left_out(data.empty_block@, data.block_updates@, lowest, y);
    }
}

/// Whether no bit of a mask names section `y`, in a world whose lowest section
/// is number `lowest`.
pub open spec fn leaves_out(masks: Seq<usize>, lowest: int, y: int) -> bool {
    forall|i: int|
        0 <= i < masks.len() ==> #[trigger] masks[i] <= i32::MAX && lowest + masks[i] - 1 != y
}

proof fn lemma_left_out(masks: Seq<usize>, updates: Seq<Box<[u8]>>, lowest: int, y: int)
    requires
        leaves_out(masks, lowest, y),
    ensures
        update_for(masks, updates, lowest - 1, y) is None,
        !selects(masks, lowest - 1, y, masks.len() as int),
{
    assert forall|i: int| 0 <= i < masks.len() implies #[trigger] masks[i] <= i32::MAX && lowest - 1
        + masks[i] != y by {}
    lemma_no_update(masks, updates, lowest - 1, y, paired(masks, updates));
    if selects(masks, lowest - 1, y, masks.len() as int) {
        let i = choose|i: int|
            0 <= i < masks.len() && #[trigger] masked_section(lowest - 1, masks[i]) == y;
        assert(masks[i] <= i32::MAX);
        assert(masks[i] as i32 == masks[i]);
    }
}

/// Every packet whose bits name sections that have a number can be stored.
pub proof fn law_ordinary_packets_can_be_stored(min_y: i32, data: PacketLightData<'_>, highest: int)
    requires
        min_y as int / 16 - 1 + highest <= i32::MAX,
        highest <= i32::MAX,
        forall|i: int| 0 <= i < data.sky_present@.len() ==> #[trigger] data.sky_present@[i] <= highest,
        forall|i: int|
            0 <= i < data.block_present@.len() ==> #[trigger] data.block_present@[i] <= highest,
        forall|i: int| 0 <= i < data.empty_sky@.len() ==> #[trigger] data.empty_sky@[i] <= highest,
        forall|i: int|
            0 <= i < data.empty_block@.len() ==> #[trigger] data.empty_block@[i] <= highest,
    ensures
        packet_fits(min_y, data),
{
    assert forall|bit: usize| bit <= highest implies #[trigger] masked_section(
        first_section(min_y as int),
        bit,
    ) == min_y as int / 16 - 1 + bit by {
        assert(bit as i32 == bit);
    }
}

} // verus!
