//! Nearby entities: what they count as, which of them are drawn, and in which
//! order.
use vstd::prelude::*;

use crate::grid::BlockSource;
use crate::hud::without_namespace;
use crate::palette::{rgb, Rgb};
use crate::ray::{
    is_scene, law_scene_is_unique, ray_fits, trace_scene, Distance, Ray, RayTerminal, SceneTrace,
};
use crate::text::{begins_with, same_text, text_after};

verus! {

/// The most entities that the renderer is handed.
pub const MAX_MARKERS: usize = 24;

/// Visual group used for a compact entity marker.
#[derive(Clone, Copy, Debug, PartialEq, Eq, Structural)]
pub enum EntityCategory {
    Player,
    Passive,
    Hostile,
}

/// Whether an entity of this kind attacks players.
pub open spec fn hostile(name: Seq<char>) -> bool {
    ||| name == "blaze"@
    ||| name == "bogged"@
    ||| name == "breeze"@
    ||| name == "cave_spider"@
    ||| name == "creeper"@
    ||| name == "creaking"@
    ||| name == "drowned"@
    ||| name == "elder_guardian"@
    ||| name == "enderman"@
    ||| name == "endermite"@
    ||| name == "evoker"@
    ||| name == "ghast"@
    ||| name == "guardian"@
    ||| name == "hoglin"@
    ||| name == "husk"@
    ||| name == "illusioner"@
    ||| name == "magma_cube"@
    ||| name == "parched"@
    ||| name == "phantom"@
    ||| name == "piglin"@
    ||| name == "piglin_brute"@
    ||| name == "pillager"@
    ||| name == "ravager"@
    ||| name == "shulker"@
    ||| name == "silverfish"@
    ||| name == "skeleton"@
    ||| name == "slime"@
    ||| name == "spider"@
    ||| name == "stray"@
    ||| name == "vex"@
    ||| name == "vindicator"@
    ||| name == "warden"@
    ||| name == "witch"@
    ||| name == "wither"@
    ||| name == "wither_skeleton"@
    ||| name == "zoglin"@
    ||| name == "zombie"@
    ||| name == "zombie_villager"@
    ||| name == "zombified_piglin"@
}

/// The group of an entity kind, given by its registry name.
pub open spec fn category_of(kind: Seq<char>) -> EntityCategory {
    let name = without_namespace(kind);
    if name == "player"@ {
        EntityCategory::Player
    } else if hostile(name) {
        EntityCategory::Hostile
    } else {
        EntityCategory::Passive
    }
}

/// The colour of a group.
pub open spec fn category_color(category: EntityCategory) -> Rgb {
    match category {
        EntityCategory::Player => rgb(255, 224, 92),
        EntityCategory::Passive => rgb(104, 226, 167),
        EntityCategory::Hostile => rgb(244, 91, 91),
    }
}

fn is_hostile(name: &str) -> (attacks: bool)
    ensures
        attacks == hostile(name@),
{
    same_text(name, "blaze")
        || same_text(name, "bogged")
        || same_text(name, "breeze")
        || same_text(name, "cave_spider")
        || same_text(name, "creeper")
        || same_text(name, "creaking")
        || same_text(name, "drowned")
        || same_text(name, "elder_guardian")
        || same_text(name, "enderman")
        || same_text(name, "endermite")
        || same_text(name, "evoker")
        || same_text(name, "ghast")
        || same_text(name, "guardian")
        || same_text(name, "hoglin")
        || same_text(name, "husk")
        || same_text(name, "illusioner")
        || same_text(name, "magma_cube")
        || same_text(name, "parched")
        || same_text(name, "phantom")
        || same_text(name, "piglin")
        || same_text(name, "piglin_brute")
        || same_text(name, "pillager")
        || same_text(name, "ravager")
        || same_text(name, "shulker")
        || same_text(name, "silverfish")
        || same_text(name, "skeleton")
        || same_text(name, "slime")
        || same_text(name, "spider")
        || same_text(name, "stray")
        || same_text(name, "vex")
        || same_text(name, "vindicator")
        || same_text(name, "warden")
        || same_text(name, "witch")
        || same_text(name, "wither")
        || same_text(name, "wither_skeleton")
        || same_text(name, "zoglin")
        || same_text(name, "zombie")
        || same_text(name, "zombie_villager")
        || same_text(name, "zombified_piglin")
}

/// The group of an entity kind, given by its registry name.
pub fn entity_category(kind: &str) -> (category: EntityCategory)
    ensures
        category == category_of(kind@),
{
    let name = match text_after(kind, "minecraft:") {
        Some(rest) => rest,
        None => kind,
    };
    if same_text(name, "player") {
        EntityCategory::Player
    } else if is_hostile(name) {
        EntityCategory::Hostile
    } else {
        EntityCategory::Passive
    }
}

impl EntityCategory {
    /// The colour of this group.
    pub fn color(self) -> (color: Rgb)
        ensures
            color == category_color(self),
    {
        match self {
            EntityCategory::Player => Rgb::new(255, 224, 92),
            EntityCategory::Passive => Rgb::new(104, 226, 167),
            EntityCategory::Hostile => Rgb::new(244, 91, 91),
        }
    }
}

/// Whether place `a` comes before place `b` when places are ordered by key,
/// and places with equal keys keep their order.
pub open spec fn precedes(keys: Seq<Distance>, descending: bool, a: int, b: int) -> bool {
    if keys[a].key == keys[b].key {
        a < b
    } else {
        (keys[a].key < keys[b].key) != descending
    }
}

/// Whether `order` lists exactly the chosen places, each before those that it
/// precedes.
pub open spec fn is_ordering(
    keys: Seq<Distance>,
    chosen: spec_fn(int) -> bool,
    descending: bool,
    order: Seq<usize>,
) -> bool {
    &&& forall|k: int, l: int|
        0 <= k < l < order.len() ==> precedes(
            keys,
            descending,
            #[trigger] order[k] as int,
            #[trigger] order[l] as int,
        )
    &&& forall|k: int|
        0 <= k < order.len() ==> (#[trigger] order[k]) < keys.len() && chosen(order[k] as int)
    &&& forall|place: usize|
        place < keys.len() && chosen(place as int) ==> #[trigger] order.contains(place)
}

/// Whether place `a` comes before place `b`.
fn comes_first(keys: &Vec<Distance>, descending: bool, a: usize, b: usize) -> (first: bool)
    requires
        a < keys@.len(),
        b < keys@.len(),
    ensures
        first == precedes(keys@, descending, a as int, b as int),
{
    if keys[a].key == keys[b].key {
        a < b
    } else {
        (keys[a].key < keys[b].key) != descending
    }
}

/// Inserts a place into an ordering of smaller places.
fn insert_place(keys: &Vec<Distance>, descending: bool, order: &mut Vec<usize>, place: usize)
    requires
        place < keys@.len(),
        forall|k: int| 0 <= k < old(order)@.len() ==> #[trigger] old(order)@[k] < place,
        forall|k: int, l: int|
            0 <= k < l < old(order)@.len() ==> precedes(
                keys@,
                descending,
                #[trigger] old(order)@[k] as int,
                #[trigger] old(order)@[l] as int,
            ),
    ensures
        forall|k: int, l: int|
            0 <= k < l < final(order)@.len() ==> precedes(
                keys@,
                descending,
                #[trigger] final(order)@[k] as int,
                #[trigger] final(order)@[l] as int,
            ),
        exists|at: int|
            0 <= at <= old(order)@.len() && final(order)@ == #[trigger] old(order)@.insert(
                at,
                place,
            ),
{
    let mut at: usize = order.len();
    while at > 0 && comes_first(keys, descending, place, order[at - 1])
        invariant
            at <= order@.len(),
            order@ == old(order)@,
            place < keys@.len(),
            forall|k: int| 0 <= k < order@.len() ==> #[trigger] order@[k] < place,
            forall|k: int|
                at <= k < order@.len() ==> precedes(
                    keys@,
                    descending,
                    place as int,
                    #[trigger] order@[k] as int,
                ),
        decreases at,
    {
        at = at - 1;
    }
    order.insert(at, place);
    assert(order@ == old(order)@.insert(at as int, place));
    assert forall|k: int, l: int| 0 <= k < l < order@.len() implies precedes(
        keys@,
        descending,
        #[trigger] order@[k] as int,
        #[trigger] order@[l] as int,
    ) by {
        let before = old(order)@;
        let from = if k < at { k } else { k - 1 };
        let to = if l < at { l } else { l - 1 };
        if k == at {
            assert(order@[l] == before[to]);
        } else if l == at {
            assert(order@[k] == before[k]);
            if k < at - 1 {
                assert(precedes(keys@, descending, before[k] as int, before[at - 1] as int));
            }
        } else {
            assert(order@[k] == before[from] && order@[l] == before[to]);
        }
    }
}

/// A marker on the screen of a nearby entity.
#[derive(Clone, Debug)]
pub struct EntityMarker {
    pub category: EntityCategory,
    /// How far the entity stands from the eye.
    pub distance: Distance,
    /// The view ray from the eye to the middle of the entity. There is none
    /// for an entity without size, behind the eye, or beyond reach.
    pub sight: Option<Ray>,
    /// An opaque block nearer than this hides the entity.
    pub occlusion: Distance,
    /// Whether the middle of the entity is on the screen or close to it.
    pub on_screen: bool,
    /// The pixel of the middle of the entity.
    pub center_x: i64,
    pub center_y: i64,
    /// The size of the entity in pixels.
    pub height: i64,
    pub width: i64,
}

/// Whether what ends a view ray hides an entity. Unloaded space is
/// intentionally conservative: a marker must not leak through an unknown
/// chunk.
pub open spec fn hides(terminal: RayTerminal, occlusion: Distance) -> bool {
    match terminal {
        RayTerminal::Opaque(hit) => hit.distance.key < occlusion.key,
        RayTerminal::Unloaded { .. } => true,
        RayTerminal::Miss => false,
        RayTerminal::LayerLimit => false,
    }
}

/// Whether an entity is to be drawn: it is before the eye, nothing hides it,
/// and it is on the screen.
pub open spec fn visible<S: BlockSource>(source: &S, marker: EntityMarker) -> bool {
    match marker.sight {
        Some(ray) => {
            &&& marker.on_screen
            &&& exists|scene: SceneTrace| #[trigger]
                is_scene(source, ray, scene) && !hides(scene.terminal, marker.occlusion)
        },
        None => false,
    }
}

/// Whether the view ray of an entity, if it has one, is usable.
pub open spec fn marker_fits(marker: EntityMarker) -> bool {
    match marker.sight {
        Some(ray) => ray_fits(ray),
        None => true,
    }
}

/// Orders the chosen places by key. Places with equal keys keep their order.
fn order_places(keys: &Vec<Distance>, chosen: &Vec<bool>, descending: bool) -> (order: Vec<usize>)
    requires
        chosen@.len() == keys@.len(),
    ensures
        is_ordering(keys@, |place: int| chosen@[place], descending, order@),
{
    let mut order: Vec<usize> = Vec::new();
    let mut place: usize = 0;
    while place < keys.len()
        invariant
            place <= keys@.len(),
            chosen@.len() == keys@.len(),
            forall|k: int, l: int|
                0 <= k < l < order@.len() ==> precedes(
                    keys@,
                    descending,
                    #[trigger] order@[k] as int,
                    #[trigger] order@[l] as int,
                ),
            forall|k: int|
                0 <= k < order@.len() ==> (#[trigger] order@[k]) < place
                    && chosen@[order@[k] as int],
            forall|other: usize|
                other < place && chosen@[other as int] ==> #[trigger] order@.contains(other),
        decreases keys@.len() - place,
    {
        if chosen[place] {
            let ghost before = order@;
            insert_place(keys, descending, &mut order, place);
            proof {
                let at = choose|at: int|
                    0 <= at <= before.len() && order@ == #[trigger] before.insert(at, place);
                assert(order@[at] == place);
                assert forall|other: usize|
                    other < place + 1 && chosen@[other as int] implies #[trigger] order@.contains(
                    other,
                ) by {
                    if other != place {
                        assert(before.contains(other));
                        let k = choose|k: int| 0 <= k < before.len() && before[k] == other;
                        assert(order@[if k < at { k } else { k + 1 }] == other);
                    }
                }
                assert forall|k: int| 0 <= k < order@.len() implies (#[trigger] order@[k]) < place + 1
                    && chosen@[order@[k] as int] by {
                    if k < at {
                        assert(order@[k] == before[k]);
                    } else if k > at {
                        assert(order@[k] == before[k - 1]);
                    }
                }
            }
        }
        place = place + 1;
    }
    order
}

/// The distances of markers.
pub open spec fn marker_distances(markers: Seq<EntityMarker>) -> Seq<Distance> {
    Seq::new(markers.len(), |i: int| markers[i].distance)
}

/// Orders markers far to near, so that an unoccluded closer entity naturally
/// wins when markers overlap on the small terminal raster.
pub fn drawing_order(markers: &Vec<EntityMarker>) -> (order: Vec<usize>)
    ensures
        is_ordering(marker_distances(markers@), |place: int| true, true, order@),
{
    let mut keys: Vec<Distance> = Vec::new();
    let mut chosen: Vec<bool> = Vec::new();
    let mut i: usize = 0;
    while i < markers.len()
        invariant
            i <= markers@.len(),
            keys@ == marker_distances(markers@).take(i as int),
            chosen@.len() == i,
            forall|k: int| 0 <= k < i ==> #[trigger] chosen@[k],
        decreases markers@.len() - i,
    {
        keys.push(markers[i].distance);
        chosen.push(true);
        i = i + 1;
        assert(keys@ =~= marker_distances(markers@).take(i as int));
    }
    assert(keys@ =~= marker_distances(markers@));
    order_places(&keys, &chosen, true)
}

/// An entity as the client knows it.
#[derive(Clone, Copy, Debug, PartialEq, Eq, Structural)]
pub struct EntityCandidate {
    /// Whether it is in the world of the player.
    pub same_world: bool,
    /// Whether its width and its height are positive.
    pub has_size: bool,
    /// How far it is from the player.
    pub distance: Distance,
}

/// The distances of candidates.
pub open spec fn candidate_distances(candidates: Seq<EntityCandidate>) -> Seq<Distance> {
    Seq::new(candidates.len(), |i: int| candidates[i].distance)
}

/// Whether a candidate can be drawn at all.
pub open spec fn drawable(candidates: Seq<EntityCandidate>) -> spec_fn(int) -> bool {
    |place: int| candidates[place].same_world && candidates[place].has_size
}

/// The part of an ordering that the renderer is handed.
pub open spec fn handed(order: Seq<usize>) -> Seq<usize> {
    if order.len() <= MAX_MARKERS {
        order
    } else {
        order.take(MAX_MARKERS as int)
    }
}

/// Picks the entities that the renderer is handed: those nearest to the player
/// that can be drawn, nearest first.
pub fn nearest_entities(candidates: &Vec<EntityCandidate>) -> (order: Vec<usize>)
    ensures
        exists|all: Seq<usize>| #[trigger]
            is_ordering(
                candidate_distances(candidates@),
                drawable(candidates@),
                false,
                all,
            ) && order@ == handed(all),
{
    let mut keys: Vec<Distance> = Vec::new();
    let mut chosen: Vec<bool> = Vec::new();
    let mut i: usize = 0;
    while i < candidates.len()
        invariant
            i <= candidates@.len(),
            keys@ == candidate_distances(candidates@).take(i as int),
            chosen@.len() == i,
            forall|k: int| 0 <= k < i ==> #[trigger] chosen@[k] == drawable(candidates@)(k),
        decreases candidates@.len() - i,
    {
        keys.push(candidates[i].distance);
        chosen.push(candidates[i].same_world && candidates[i].has_size);
        i = i + 1;
        assert(keys@ =~= candidate_distances(candidates@).take(i as int));
    }
    assert(keys@ =~= candidate_distances(candidates@));
    let mut order = order_places(&keys, &chosen, false);
    let ghost all = order@;
    assert(is_ordering(candidate_distances(candidates@), drawable(candidates@), false, all));
    if order.len() > MAX_MARKERS {
        order.truncate(MAX_MARKERS);
    }
    assert(order@ =~= handed(all));
    order
}

/// Whether an entity is to be drawn.
pub fn is_visible<S: BlockSource>(source: &S, marker: &EntityMarker) -> (shown: bool)
    requires
        marker_fits(*marker),
    ensures
        shown == visible(source, *marker),
{
    match &marker.sight {
        None => false,
        Some(ray) => {
            let scene = trace_scene(source, Some(ray));
            let hidden = match scene.terminal {
                RayTerminal::Opaque(hit) => hit.distance.key < marker.occlusion.key,
                RayTerminal::Unloaded { .. } => true,
                RayTerminal::Miss | RayTerminal::LayerLimit => false,
            };
            assert(hidden == hides(scene.terminal, marker.occlusion));
            proof {
                assert forall|other: SceneTrace| #[trigger]
                    is_scene(source, *ray, other) implies other.terminal == scene.terminal by {
                    law_scene_is_unique(source, *ray, other, scene);
                }
            }
            marker.on_screen && !hidden
        },
    }
}

/// Every list of chosen places has one ordering only.
pub proof fn law_ordering_is_unique(
    keys: Seq<Distance>,
    chosen: spec_fn(int) -> bool,
    descending: bool,
    a: Seq<usize>,
    b: Seq<usize>,
)
    requires
        keys.len() <= usize::MAX,
        is_ordering(keys, chosen, descending, a),
        is_ordering(keys, chosen, descending, b),
    ensures
        a == b,
{
    lemma_ordering_agrees(keys, chosen, descending, a, b, a.len());
    lemma_ordering_agrees(keys, chosen, descending, b, a, b.len());
    assert(a =~= b);
}

/// One ordering starts as another one does, up to any place of it.
proof fn lemma_ordering_agrees(
    keys: Seq<Distance>,
    chosen: spec_fn(int) -> bool,
    descending: bool,
    a: Seq<usize>,
    b: Seq<usize>,
    n: nat,
)
    requires
        is_ordering(keys, chosen, descending, a),
        is_ordering(keys, chosen, descending, b),
        n <= a.len(),
    ensures
        n <= b.len(),
        forall|k: int| 0 <= k < n ==> #[trigger] a[k] == b[k],
    decreases n,
{
    if n > 0 {
        let last = n - 1;
        lemma_ordering_agrees(keys, chosen, descending, a, b, last as nat);
        assert(a[last] < keys.len() && chosen(a[last] as int));
        assert(b.contains(a[last]));
        let at = choose|at: int| 0 <= at < b.len() && b[at] == a[last];
        if at < last {
            assert(a[at] == b[at]);
            assert(precedes(keys, descending, a[at] as int, a[last] as int));
        } else if at > last {
            // The place that `b` has here must stand later in `a`.
            assert(b[last] < keys.len() && chosen(b[last] as int));
            assert(a.contains(b[last]));
            let other = choose|other: int| 0 <= other < a.len() && a[other] == b[last];
            assert(precedes(keys, descending, b[last] as int, b[at] as int));
            if other < last {
                assert(a[other] == b[other]);
                assert(precedes(keys, descending, b[other] as int, b[last] as int));
            } else if other > last {
                assert(precedes(keys, descending, a[last] as int, a[other] as int));
            }
        }
    }
}

/// Of two entities of which only one is handed to the renderer, that one is
/// nearer, or as near and known earlier.
pub proof fn law_nearest_are_handed(
    candidates: Seq<EntityCandidate>,
    all: Seq<usize>,
    kept: int,
    left_out: int,
)
    requires
        is_ordering(candidate_distances(candidates), drawable(candidates), false, all),
        0 <= kept < handed(all).len(),
        handed(all).len() <= left_out < all.len(),
    ensures
        candidates[handed(all)[kept] as int].distance.key
            <= candidates[all[left_out] as int].distance.key,
        handed(all).len() == MAX_MARKERS,
{
    assert(precedes(
        candidate_distances(candidates),
        false,
        all[kept] as int,
        all[left_out] as int,
    ));
}

/// An entity behind an opaque block, or behind unloaded space, is not drawn.
pub proof fn law_terrain_hides_entities<S: BlockSource>(
    source: &S,
    marker: EntityMarker,
    ray: Ray,
    scene: SceneTrace,
)
    requires
        marker.sight == Some(ray),
        is_scene(source, ray, scene),
        match scene.terminal {
            RayTerminal::Opaque(hit) => hit.distance.key < marker.occlusion.key,
            RayTerminal::Unloaded { .. } => true,
            _ => false,
        },
    ensures
        !visible(source, marker),
{
    assert forall|other: SceneTrace| #[trigger] is_scene(source, ray, other) implies hides(
        other.terminal,
        marker.occlusion,
    ) by {
        law_scene_is_unique(source, ray, other, scene);
    }
}

/// An entity is drawn exactly if it is on the screen and its view ray reaches
/// it: neither unloaded space nor an opaque block nearer than its front ends
/// the ray. Translucent layers, however many, do not hide it.
pub proof fn law_entities_in_sight_are_drawn<S: BlockSource>(
    source: &S,
    marker: EntityMarker,
    ray: Ray,
    scene: SceneTrace,
)
    requires
        marker.sight == Some(ray),
        is_scene(source, ray, scene),
    ensures
        visible(source, marker) <==> marker.on_screen && match scene.terminal {
            RayTerminal::Opaque(hit) => hit.distance.key >= marker.occlusion.key,
            RayTerminal::Unloaded { .. } => false,
            RayTerminal::Miss => true,
            RayTerminal::LayerLimit => true,
        },
{
    assert forall|other: SceneTrace| #[trigger] is_scene(source, ray, other) implies other.terminal
        == scene.terminal by {
        law_scene_is_unique(source, ray, other, scene);
    }
    let reached = match scene.terminal {
        RayTerminal::Opaque(hit) => hit.distance.key >= marker.occlusion.key,
        RayTerminal::Unloaded { .. } => false,
        RayTerminal::Miss => true,
        RayTerminal::LayerLimit => true,
    };
    assert(hides(scene.terminal, marker.occlusion) == !reached);
    if reached && marker.on_screen {
        assert(is_scene(source, marker.sight->0, scene));
        assert(!hides(scene.terminal, marker.occlusion));
    }
}

/// An entity without a view ray is never drawn.
pub proof fn law_unsighted_entities_are_not_drawn<S: BlockSource>(source: &S, marker: EntityMarker)
    requires
        marker.sight is None,
    ensures
        !visible(source, marker),
{
}

/// Markers are drawn farthest first, equally far ones in the order in which
/// they are listed, and each of them exactly once.
pub proof fn law_drawing_order_is_complete(markers: Seq<EntityMarker>, order: Seq<usize>)
    requires
        is_ordering(marker_distances(markers), |place: int| true, true, order),
    ensures
        forall|k: int| 0 <= k < order.len() ==> (#[trigger] order[k]) < markers.len(),
        forall|k: int, l: int|
            0 <= k < l < order.len() ==> {
                let earlier = markers[#[trigger] order[k] as int].distance.key;
                let later = markers[#[trigger] order[l] as int].distance.key;
                earlier > later || (earlier == later && order[k] < order[l])
            },
        forall|place: usize| place < markers.len() ==> #[trigger] order.contains(place),
        order.no_duplicates(),
{
    let keys = marker_distances(markers);
    assert forall|k: int, l: int| 0 <= k < l < order.len() implies {
        let earlier = markers[#[trigger] order[k] as int].distance.key;
        let later = markers[#[trigger] order[l] as int].distance.key;
        earlier > later || (earlier == later && order[k] < order[l])
    } by {
        assert(order[k] < keys.len() && order[l] < keys.len());
        assert(precedes(keys, true, order[k] as int, order[l] as int));
    }
}

/// The renderer is handed at most 24 entities, nearest first, equally near
/// ones in the order in which they are known. All of them are in the player's
/// world and have a size, and one that is left out although it could be drawn
/// is no nearer than any of the 24 that are handed.
pub proof fn law_nearest_drawable_entities_are_handed(
    candidates: Seq<EntityCandidate>,
    all: Seq<usize>,
)
    requires
        is_ordering(candidate_distances(candidates), drawable(candidates), false, all),
    ensures
        handed(all).len() <= 24,
        forall|k: int|
            0 <= k < handed(all).len() ==> {
                &&& (#[trigger] handed(all)[k]) < candidates.len()
                &&& candidates[handed(all)[k] as int].same_world
                &&& candidates[handed(all)[k] as int].has_size
            },
        forall|k: int, l: int|
            0 <= k < l < handed(all).len() ==> {
                let nearer = candidates[#[trigger] handed(all)[k] as int].distance.key;
                let farther = candidates[#[trigger] handed(all)[l] as int].distance.key;
                nearer < farther || (nearer == farther && handed(all)[k] < handed(all)[l])
            },
        forall|place: usize|
            place < candidates.len() && (#[trigger] candidates[place as int]).same_world
                && candidates[place as int].has_size && !handed(all).contains(place) ==> {
                &&& handed(all).len() == 24
                &&& forall|k: int|
                    0 <= k < 24 ==> candidates[#[trigger] handed(all)[k] as int].distance.key
                        <= candidates[place as int].distance.key
            },
{
    let keys = candidate_distances(candidates);
    let chosen = drawable(candidates);
    assert forall|k: int| 0 <= k < handed(all).len() implies {
        &&& (#[trigger] handed(all)[k]) < candidates.len()
        &&& candidates[handed(all)[k] as int].same_world
        &&& candidates[handed(all)[k] as int].has_size
    } by {
        assert(all[k] < keys.len() && chosen(all[k] as int));
    }
    assert forall|k: int, l: int| 0 <= k < l < handed(all).len() implies {
        let nearer = candidates[#[trigger] handed(all)[k] as int].distance.key;
        let farther = candidates[#[trigger] handed(all)[l] as int].distance.key;
        nearer < farther || (nearer == farther && handed(all)[k] < handed(all)[l])
    } by {
        assert(precedes(keys, false, all[k] as int, all[l] as int));
    }
    assert forall|place: usize|
        place < candidates.len() && (#[trigger] candidates[place as int]).same_world
            && candidates[place as int].has_size && !handed(all).contains(place) implies {
        &&& handed(all).len() == 24
        &&& forall|k: int|
            0 <= k < 24 ==> candidates[#[trigger] handed(all)[k] as int].distance.key
                <= candidates[place as int].distance.key
    } by {
        assert(chosen(place as int));
        assert(all.contains(place));
        let at = choose|at: int| 0 <= at < all.len() && all[at] == place;
        if at < handed(all).len() {
            assert(handed(all)[at] == place);
        }
        assert forall|k: int| 0 <= k < 24 implies candidates[#[trigger] handed(
            all,
        )[k] as int].distance.key <= candidates[place as int].distance.key by {
            assert(precedes(keys, false, all[k] as int, all[at] as int));
        }
    }
}

/// A kind counts the same with and without the `minecraft:` namespace. Only
/// players count as players.
pub proof fn law_kinds_with_namespace(kind: Seq<char>)
    requires
        !begins_with(kind, "minecraft:"@),
    ensures
        category_of("minecraft:"@ + kind) == category_of(kind),
        category_of(kind) == EntityCategory::Player <==> kind == "player"@,
{
    reveal_strlit("minecraft:");
    assert("minecraft:"@.len() == 10);
    let full = "minecraft:"@ + kind;
    assert(full.skip(10) =~= kind);
    assert(full.subrange(0, 10) =~= "minecraft:"@);
}

/// Exactly the undead, the illagers with their company, and the other monsters
/// count as hostile; whatever else is no player counts as passive.
pub proof fn law_monsters_are_hostile(kind: Seq<char>)
    requires
        !begins_with(kind, "minecraft:"@),
        kind != "player"@,
    ensures
        ({
            let undead = kind == "zombie"@ || kind == "zombie_villager"@ || kind
                == "zombified_piglin"@ || kind == "husk"@ || kind == "drowned"@ || kind
                == "skeleton"@ || kind == "stray"@ || kind == "bogged"@ || kind == "parched"@
                || kind == "wither"@ || kind == "wither_skeleton"@ || kind == "phantom"@ || kind
                == "zoglin"@;
            let illager = kind == "evoker"@ || kind == "illusioner"@ || kind == "pillager"@ || kind
                == "ravager"@ || kind == "vex"@ || kind == "vindicator"@ || kind == "witch"@;
            let creature = kind == "spider"@ || kind == "cave_spider"@ || kind == "silverfish"@
                || kind == "endermite"@ || kind == "creeper"@ || kind == "creaking"@ || kind
                == "slime"@ || kind == "magma_cube"@ || kind == "enderman"@ || kind == "guardian"@
                || kind == "elder_guardian"@ || kind == "shulker"@ || kind == "warden"@ || kind
                == "blaze"@ || kind == "breeze"@ || kind == "ghast"@ || kind == "hoglin"@ || kind
                == "piglin"@ || kind == "piglin_brute"@;
            category_of(kind) == (if undead || illager || creature {
                EntityCategory::Hostile
            } else {
                EntityCategory::Passive
            })
        }),
{
}

/// The groups of entities have colours that tell them apart: players are
/// yellow, passive entities green, hostile ones red.
pub proof fn law_group_colours()
    ensures
        ({
            let player = category_color(EntityCategory::Player);
            let passive = category_color(EntityCategory::Passive);
            let hostile = category_color(EntityCategory::Hostile);
            &&& player.r > player.g > 200 && player.b < 100
            &&& passive.g > 200 && passive.r < 150 && passive.b < 200
            &&& hostile.r > 200 && hostile.g < 100 && hostile.b < 100
        }),
{
}

} // verus!
