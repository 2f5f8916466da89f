//! What colours a pixel: the surfaces on a view ray and the light on them.
use vstd::prelude::*;

use crate::grid::{has_neighbor, neighbor, Block, BlockPos, BlockSource, Face, LightLevels, Voxel};
use crate::palette::{appearance_of, block_appearance, law_overlay_families, Rgb};
use crate::ray::{
    blocks_before, clear_before, crossings, ends_at, hit_on, is_scene, is_traced,
    law_first_opaque_cell_ends_the_view, law_scene_layers, law_translucent_blocks_are_layers,
    law_walk_is_connected, layer_on, layers_before, optional_ray_fits, passes, ray_behind,
    ray_fits, terminal_on, trace_scene, visit, Distance, Ray, RayHit, RayTerminal, SceneTrace,
};

verus! {

/// A surface with everything that its colour depends on.
#[derive(Clone, Copy, Debug, PartialEq, Eq)]
pub struct SurfaceSample {
    pub color: Rgb,
    /// Percentage of the surface's own colour over what is behind it.
    pub opacity: u8,
    /// Percentage of the light that the entered face shows.
    pub face_light: u8,
    /// The light in front of the entered face.
    pub light: LightLevels,
    pub distance: Distance,
}

/// What is behind all translucent layers of a pixel.
#[derive(Clone, Copy, Debug, PartialEq, Eq)]
pub enum Backdrop {
    Surface(SurfaceSample),
    Sky,
    Unloaded { distance: Distance },
}

/// The surfaces of a pixel in the order in which they are blended.
#[derive(Clone, Debug)]
pub struct PixelPlan {
    pub backdrop: Backdrop,
    /// Translucent layers, farthest first.
    pub layers: Vec<SurfaceSample>,
}

/// The cell whose light falls on a hit: the one in front of the entered face,
/// or the block's own cell for a camera inside it.
pub open spec fn light_cell(hit: RayHit) -> BlockPos {
    match hit.entered_face {
        Some(face) => neighbor(face, hit.position),
        None => hit.position,
    }
}

/// Whether the cell whose light falls on a hit has coordinates.
pub open spec fn light_cell_exists(hit: RayHit) -> bool {
    match hit.entered_face {
        Some(face) => has_neighbor(face, hit.position),
        None => true,
    }
}

/// The share of light that an entered face shows, in percent.
pub open spec fn face_percent(face: Option<Face>) -> u8 {
    match face {
        None => 100,
        Some(Face::Top) => 100,
        Some(Face::Bottom) => 48,
        Some(Face::North) => 76,
        Some(Face::South) => 76,
        Some(Face::West) => 84,
        Some(Face::East) => 84,
    }
}

/// The surface that a hit shows.
pub open spec fn surface<S: BlockSource>(source: &S, hit: RayHit) -> SurfaceSample {
    SurfaceSample {
        color: appearance_of(hit.block.id@).color,
        opacity: appearance_of(hit.block.id@).opacity,
        face_light: face_percent(hit.entered_face),
        light: source.light(light_cell(hit)),
        distance: hit.distance,
    }
}

/// What is behind the layers of a traced scene.
pub open spec fn backdrop_of<S: BlockSource>(source: &S, terminal: RayTerminal) -> Backdrop {
    match terminal {
        RayTerminal::Opaque(hit) => Backdrop::Surface(surface(source, hit)),
        RayTerminal::Miss => Backdrop::Sky,
        RayTerminal::LayerLimit => Backdrop::Sky,
        RayTerminal::Unloaded { distance } => Backdrop::Unloaded { distance },
    }
}

/// Whether `plan` blends the surfaces of `scene` back to front.
pub open spec fn is_plan<S: BlockSource>(source: &S, scene: SceneTrace, plan: PixelPlan) -> bool {
    &&& plan.backdrop == backdrop_of(source, scene.terminal)
    &&& plan.layers@.len() == scene.layers@.len()
    &&& forall|i: int|
        0 <= i < plan.layers@.len() ==> #[trigger] plan.layers@[i] == surface(
            source,
            scene.layers@[scene.layers@.len() - 1 - i],
        )
}

/// Whether `plan` blends what a view ray shows of a world.
pub open spec fn is_plan_of<S: BlockSource>(
    source: &S,
    ray: Option<Ray>,
    plan: PixelPlan,
) -> bool {
    exists|scene: SceneTrace| #[trigger]
        is_traced(source, ray, scene) && is_plan(source, scene, plan)
}

/// Looks up the surface that a hit shows.
pub fn shade_hit<S: BlockSource>(source: &S, hit: RayHit) -> (sample: SurfaceSample)
    requires
        light_cell_exists(hit),
    ensures
        sample == surface(source, hit),
{
    let face_light: u8 = match hit.entered_face {
        Some(face) => face.lighting(),
        None => 100,
    };
    let cell = match hit.entered_face {
        Some(face) => face.light_sample_position(hit.position),
        None => hit.position,
    };
    let appearance = block_appearance(hit.block.id);
    SurfaceSample {
        color: appearance.color,
        opacity: appearance.opacity,
        face_light,
        light: source.light_at(cell),
        distance: hit.distance,
    }
}

/// Light falls on every surface of a scene from a cell of the world.
proof fn lemma_visited_cells_are_lit<S: BlockSource>(source: &S, ray: Ray, n: nat)
    requires
        ray_fits(ray),
        n <= crossings(ray) + 1,
    ensures
        forall|i: int|
            0 <= i < layers_before(source, ray, n).len() ==> light_cell_exists(
                #[trigger] layers_before(source, ray, n)[i],
            ),
        n <= crossings(ray) ==> match terminal_on(source, ray, n) {
            Some(RayTerminal::Opaque(hit)) => light_cell_exists(hit),
            _ => true,
        },
    decreases n,
{
    if n > 0 {
        lemma_visited_cells_are_lit(source, ray, (n - 1) as nat);
        if n >= 2 {
            law_walk_is_connected(ray, (n - 2) as nat);
        }
        if n <= crossings(ray) {
            law_walk_is_connected(ray, (n - 1) as nat);
        }
        let earlier = layers_before(source, ray, (n - 1) as nat);
        assert forall|i: int| 0 <= i < layers_before(source, ray, n).len() implies light_cell_exists(
            #[trigger] layers_before(source, ray, n)[i],
        ) by {
            if i < earlier.len() {
                assert(layers_before(source, ray, n)[i] == earlier[i]);
            } else {
                assert(layer_on(source, ray, (n - 1) as nat) == Some(
                    layers_before(source, ray, n)[i],
                ));
            }
        }
    }
}

/// Light falls on every surface of a scene from a cell of the world.
proof fn lemma_scene_is_lit<S: BlockSource>(source: &S, ray: Ray, scene: SceneTrace)
    requires
        ray_fits(ray),
        is_scene(source, ray, scene),
    ensures
        forall|i: int|
            0 <= i < scene.layers@.len() ==> light_cell_exists(#[trigger] scene.layers@[i]),
        match scene.terminal {
            RayTerminal::Opaque(hit) => light_cell_exists(hit),
            _ => true,
        },
{
    if passes(source, ray, crossings(ray) + 1) {
        lemma_visited_cells_are_lit(source, ray, crossings(ray) + 1);
    } else {
        let n = choose|n: nat| #[trigger]
            ends_at(source, ray, n) && terminal_on(source, ray, n) == Some(scene.terminal)
                && scene.layers@ == layers_before(source, ray, n);
        lemma_visited_cells_are_lit(source, ray, n);
    }
}

/// Collects the surfaces of one pixel. The traversal visits blocks near to
/// far; the layers are listed in reverse so that the nearest translucent
/// surface is blended last, on top of the full scene behind.
pub fn sample_surfaces<S: BlockSource>(source: &S, ray: Option<&Ray>) -> (plan: PixelPlan)
    requires
        optional_ray_fits(ray_behind(ray)),
    ensures
        is_plan_of(source, ray_behind(ray), plan),
{
    let scene = trace_scene(source, ray);
    proof {
        if ray is Some {
            lemma_scene_is_lit(source, *ray->0, scene);
        }
    }
    let backdrop = match scene.terminal {
        RayTerminal::Opaque(hit) => Backdrop::Surface(shade_hit(source, hit)),
        RayTerminal::Miss | RayTerminal::LayerLimit => Backdrop::Sky,
        RayTerminal::Unloaded { distance } => Backdrop::Unloaded { distance },
    };
    let mut layers: Vec<SurfaceSample> = Vec::new();
    let count = scene.layers.len();
    let mut i: usize = 0;
    while i < count
        invariant
            i <= count,
            count == scene.layers@.len(),
            forall|k: int|
                0 <= k < scene.layers@.len() ==> light_cell_exists(#[trigger] scene.layers@[k]),
            layers@.len() == i,
            forall|k: int|
                0 <= k < i ==> #[trigger] layers@[k] == surface(
                    source,
                    scene.layers@[scene.layers@.len() - 1 - k],
                ),
        decreases count - i,
    {
        layers.push(shade_hit(source, scene.layers[count - 1 - i]));
        i = i + 1;
    }
    let plan = PixelPlan { backdrop, layers };
    assert(is_plan(source, scene, plan));
    plan
}

/// The tint of the whole view, if the camera is inside a material that tints.
pub open spec fn overlay_in<S: BlockSource>(source: &S, eye: BlockPos) -> Option<(Rgb, u8)> {
    match source.voxel(eye) {
        Voxel::Solid(block) => appearance_of(block.id@).camera_overlay,
        _ => None,
    }
}

/// The tint of the whole view, if the camera is inside a material that tints.
pub fn camera_overlay<S: BlockSource>(source: &S, eye: BlockPos) -> (overlay: Option<(Rgb, u8)>)
    ensures
        overlay == overlay_in(source, eye),
{
    match source.voxel_at(eye) {
        Voxel::Solid(block) => block_appearance(block.id).camera_overlay,
        _ => None,
    }
}

/// The light on an entered face is that of the cell from which the ray comes.
pub proof fn law_light_comes_from_the_cell_before<S: BlockSource>(source: &S, ray: Ray, n: nat)
    requires
        ray_fits(ray),
        n < crossings(ray),
    ensures
        forall|block|
            light_cell(#[trigger] hit_on(visit(ray, n + 1), block)) == visit(ray, n).position,
{
    law_walk_is_connected(ray, n);
}

/// A pixel shows what its ray visits. The first opaque block behind at most
/// four translucent ones is the backdrop, in its own colour, with the shade of
/// the face that the ray enters and the light of the cell that the ray comes
/// from; a camera inside it sees it by the light of its own cell. Unloaded
/// space is a backdrop of its own, and where nothing ends the ray the backdrop
/// is the sky.
pub proof fn law_backdrop_is_what_the_ray_meets<S: BlockSource>(
    source: &S,
    ray: Ray,
    plan: PixelPlan,
    n: nat,
)
    requires
        ray_fits(ray),
        is_plan_of(source, Some(ray), plan),
        clear_before(source, ray, n),
        blocks_before(source, ray, n) <= 4,
        n <= crossings(ray) + 1,
    ensures
        n <= crossings(ray) ==> match source.voxel(visit(ray, n).position) {
            Voxel::Solid(block) => if appearance_of(block.id@).opacity >= 100 {
                &&& plan.backdrop matches Backdrop::Surface(sample) && {
                    &&& sample.color == appearance_of(block.id@).color
                    &&& sample.opacity == appearance_of(block.id@).opacity
                    &&& sample.face_light == face_percent(visit(ray, n).entered_face)
                    &&& sample.distance == visit(ray, n).distance
                    &&& n == 0 ==> sample.light == source.light(ray.start)
                    &&& n > 0 ==> sample.light == source.light(visit(ray, (n - 1) as nat).position)
                }
                &&& plan.layers@.len() == blocks_before(source, ray, n)
            } else {
                blocks_before(source, ray, n) == 4 ==> plan.backdrop == Backdrop::Sky
            },
            Voxel::Unloaded => plan.backdrop == (Backdrop::Unloaded {
                distance: visit(ray, n).distance,
            }),
            Voxel::Air => true,
        },
        n == crossings(ray) + 1 ==> plan.backdrop == Backdrop::Sky,
{
    let scene = choose|scene: SceneTrace| #[trigger]
        is_traced(source, Some(ray), scene) && is_plan(source, scene, plan);
    law_first_opaque_cell_ends_the_view(source, ray, scene, n);
    if 0 < n && n <= crossings(ray) {
        law_walk_is_connected(ray, (n - 1) as nat);
    }
}

/// Translucent layers are blended far to near, so that the nearest one lies on
/// top: the layer of a block stands behind those of all blocks that the ray
/// visits later, counted from the end by the blocks that it visits earlier.
pub proof fn law_layers_are_blended_back_to_front<S: BlockSource>(
    source: &S,
    ray: Ray,
    plan: PixelPlan,
    n: nat,
    block: Block,
)
    requires
        ray_fits(ray),
        is_plan_of(source, Some(ray), plan),
        clear_before(source, ray, n),
        blocks_before(source, ray, n) < 4,
        n <= crossings(ray),
        source.voxel(visit(ray, n).position) == Voxel::Solid(block),
        appearance_of(block.id@).opacity < 100,
    ensures
        blocks_before(source, ray, n) < plan.layers@.len() <= 4,
        ({
            let sample = plan.layers@[plan.layers@.len() - 1 - blocks_before(source, ray, n)];
            &&& sample.color == appearance_of(block.id@).color
            &&& sample.opacity == appearance_of(block.id@).opacity
            &&& sample.face_light == face_percent(visit(ray, n).entered_face)
            &&& sample.distance == visit(ray, n).distance
            &&& n == 0 ==> sample.light == source.light(ray.start)
            &&& n > 0 ==> sample.light == source.light(visit(ray, (n - 1) as nat).position)
        }),
{
    let scene = choose|scene: SceneTrace| #[trigger]
        is_traced(source, Some(ray), scene) && is_plan(source, scene, plan);
    law_translucent_blocks_are_layers(source, ray, scene, n, block);
    law_scene_layers(source, ray, scene);
    if 0 < n {
        law_walk_is_connected(ray, (n - 1) as nat);
    }
    let at = plan.layers@.len() - 1 - blocks_before(source, ray, n);
    assert(plan.layers@[at] == surface(source, scene.layers@[scene.layers@.len() - 1 - at]));
}

/// A pixel without a ray shows nothing but the sky.
pub proof fn law_no_ray_shows_the_sky<S: BlockSource>(source: &S, plan: PixelPlan)
    requires
        is_plan_of(source, None, plan),
    ensures
        plan.backdrop == Backdrop::Sky,
        plan.layers@.len() == 0,
{
}

/// Faces are shaded by their direction, as if lit from above: tops show all of
/// the light, as does a block from the inside, bottoms the least; opposite
/// sides show the same, those to the west and east more than the other two.
pub proof fn law_faces_are_lit_from_above()
    ensures
        face_percent(Some(Face::Top)) == 100,
        face_percent(None) == 100,
        face_percent(Some(Face::West)) == face_percent(Some(Face::East)),
        face_percent(Some(Face::North)) == face_percent(Some(Face::South)),
        face_percent(Some(Face::Bottom)) == 48,
        face_percent(Some(Face::North)) == 76,
        face_percent(Some(Face::West)) == 84,
        forall|face: Face|
            face_percent(Some(Face::Bottom)) <= #[trigger] face_percent(Some(face)) <= 100,
{
}

/// The whole view is tinted exactly while the eye is in a fluid, and then in
/// the tint of that fluid.
pub proof fn law_fluids_tint_the_view<S: BlockSource>(source: &S, eye: BlockPos)
    ensures
        overlay_in(source, eye) is Some <==> (source.voxel(eye) matches Voxel::Solid(block) && (
        block.id@ == "water"@ || block.id@ == "bubble_column"@ || block.id@ == "lava"@)),
        source.voxel(eye) matches Voxel::Solid(block) ==> overlay_in(source, eye) == appearance_of(
            block.id@,
        ).camera_overlay,
{
    if let Voxel::Solid(block) = source.voxel(eye) {
        law_overlay_families(block.id@);
    }
}

} // verus!
