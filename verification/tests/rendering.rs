//! Rays, shading, entity markers and frames over small synthetic worlds.
use std::collections::HashMap;

use mctui::entities::{
    drawing_order, entity_category, is_visible, nearest_entities, EntityCandidate,
};
use mctui::frame::{frame_size, marker_height, marker_width};
use mctui::grid::{Block, BlockPos, BlockSource, Face, LightLevels, Voxel};
use mctui::palette::{block_appearance, block_color, minimap_character, Rgb};
use mctui::ray::{
    raycast, trace_scene, AxisCrossings, Distance, Ray, RayHit, RayResult, RayTerminal,
    MAX_TRANSLUCENT_LAYERS,
};
use mctui::shade::{camera_overlay, sample_surfaces, shade_hit, Backdrop, PixelPlan, SurfaceSample};
use mctui::{EntityCategory, EntityMarker, Frame};

#[derive(Default)]
struct TestWorld(HashMap<BlockPos, Voxel>);

impl BlockSource for TestWorld {
    fn voxel(&self, position: BlockPos) -> Voxel {
        self.voxel_at(position)
    }

    fn light(&self, position: BlockPos) -> LightLevels {
        self.light_at(position)
    }

    fn voxel_at(&self, position: BlockPos) -> Voxel {
        self.0.get(&position).copied().unwrap_or(Voxel::Air)
    }

    fn light_at(&self, _position: BlockPos) -> LightLevels {
        LightLevels::full_sky()
    }
}

struct LightTestWorld {
    blocks: HashMap<BlockPos, Voxel>,
    lights: HashMap<BlockPos, LightLevels>,
}

impl BlockSource for LightTestWorld {
    fn voxel(&self, position: BlockPos) -> Voxel {
        self.voxel_at(position)
    }

    fn light(&self, position: BlockPos) -> LightLevels {
        self.light_at(position)
    }

    fn voxel_at(&self, position: BlockPos) -> Voxel {
        self.blocks.get(&position).copied().unwrap_or(Voxel::Air)
    }

    fn light_at(&self, position: BlockPos) -> LightLevels {
        self.lights.get(&position).copied().unwrap_or(LightLevels::new(0, 0))
    }
}

type V = [f64; 3];

fn dot(a: V, b: V) -> f64 {
    a[0] * b[0] + a[1] * b[1] + a[2] * b[2]
}

fn distance(value: f64) -> Distance {
    Distance::from_bits(value.to_bits())
}

fn blocks(distance: Distance) -> f64 {
    f64::from_bits(distance.to_bits())
}

fn floor(v: V) -> BlockPos {
    BlockPos::new(v[0].floor() as i32, v[1].floor() as i32, v[2].floor() as i32)
}

fn axis(origin: f64, direction: f64, block: i32, reach: f64) -> AxisCrossings {
    let (step, mut side, delta) = if direction > 0.0 {
        (1, ((block + 1) as f64 - origin) / direction, 1.0 / direction)
    } else if direction < 0.0 {
        (-1, (origin - block as f64) * (-1.0 / direction), -1.0 / direction)
    } else {
        return AxisCrossings { step: 0, sides: Vec::new() };
    };
    let mut sides = Vec::new();
    while side <= reach {
        sides.push(distance(side));
        side += delta;
    }
    AxisCrossings { step, sides }
}

fn ray(origin: V, direction: V, reach: f64) -> Option<Ray> {
    let length = dot(direction, direction).sqrt();
    if !(reach.is_finite() && reach >= 0.0 && length.is_finite() && length > f64::EPSILON) {
        return None;
    }
    let start = floor(origin);
    Some(Ray {
        start,
        x: axis(origin[0], direction[0] / length, start.x, reach),
        y: axis(origin[1], direction[1] / length, start.y, reach),
        z: axis(origin[2], direction[2] / length, start.z, reach),
    })
}

fn stone() -> Voxel {
    Voxel::Solid(Block { id: "stone" })
}

fn water() -> Voxel {
    Voxel::Solid(Block { id: "water" })
}

#[test]
fn dda_hits_the_expected_block_and_distance() {
    let mut world = TestWorld::default();
    world.0.insert(BlockPos::new(3, 0, 0), stone());

    let result = raycast(&world, ray([0.5, 0.5, 0.5], [4.0, 0.0, 0.0], 10.0).as_ref());

    assert_eq!(
        result,
        RayResult::Hit(RayHit {
            position: BlockPos::new(3, 0, 0),
            distance: distance(2.5),
            block: Block { id: "stone" },
            entered_face: Some(Face::West),
        })
    );
}

#[test]
fn dda_does_not_skip_a_diagonal_voxel() {
    let mut world = TestWorld::default();
    world.0.insert(BlockPos::new(1, 0, 1), stone());

    let result = raycast(&world, ray([0.2, 0.5, 0.2], [1.0, 0.0, 1.0], 10.0).as_ref());

    assert!(matches!(
        result,
        RayResult::Hit(RayHit { position: BlockPos { x: 1, y: 0, z: 1 }, .. })
    ));
}

#[test]
fn unloaded_space_is_never_rendered_as_sky() {
    let mut world = TestWorld::default();
    world.0.insert(BlockPos::new(1, 0, 0), Voxel::Unloaded);

    let view = ray([0.5, 0.5, 0.5], [1.0, 0.0, 0.0], 10.0);
    let result = raycast(&world, view.as_ref());

    assert_eq!(
        result,
        RayResult::Unloaded { position: BlockPos::new(1, 0, 0), distance: distance(0.5) }
    );
    assert_eq!(
        sample_surfaces(&world, view.as_ref()).backdrop,
        Backdrop::Unloaded { distance: distance(0.5) }
    );
}

#[test]
fn rays_without_direction_or_reach_meet_nothing() {
    let mut world = TestWorld::default();
    world.0.insert(BlockPos::new(0, 0, 0), stone());

    assert!(ray([0.5, 0.5, 0.5], [0.0, 0.0, 0.0], 10.0).is_none());
    assert!(ray([0.5, 0.5, 0.5], [1.0, 0.0, 0.0], f64::NAN).is_none());
    assert!(ray([0.5, 0.5, 0.5], [1.0, 0.0, 0.0], -1.0).is_none());
    assert_eq!(raycast(&world, None), RayResult::Miss);
    assert_eq!(trace_scene(&world, None).terminal, RayTerminal::Miss);
    assert_eq!(sample_surfaces(&world, None).backdrop, Backdrop::Sky);
}

#[test]
fn a_ray_that_starts_inside_a_block_enters_no_face() {
    let mut world = TestWorld::default();
    world.0.insert(BlockPos::new(-1, 0, 0), stone());

    let result = raycast(&world, ray([-0.5, 0.5, 0.5], [1.0, 0.0, 0.0], 10.0).as_ref());
    assert_eq!(
        result,
        RayResult::Hit(RayHit {
            position: BlockPos::new(-1, 0, 0),
            distance: distance(0.0),
            block: Block { id: "stone" },
            entered_face: None,
        })
    );
}

#[test]
fn blocks_beyond_the_reach_are_missed() {
    let mut world = TestWorld::default();
    world.0.insert(BlockPos::new(3, 0, 0), stone());

    let short = ray([0.5, 0.5, 0.5], [1.0, 0.0, 0.0], 2.0);
    assert_eq!(raycast(&world, short.as_ref()), RayResult::Miss);
    let exact = ray([0.5, 0.5, 0.5], [1.0, 0.0, 0.0], 2.5);
    assert!(matches!(raycast(&world, exact.as_ref()), RayResult::Hit(_)));
}

#[test]
fn every_axis_reports_the_face_it_enters() {
    let mut world = TestWorld::default();
    for (position, direction, face) in [
        (BlockPos::new(2, 0, 0), [1.0, 0.0, 0.0], Face::West),
        (BlockPos::new(-2, 0, 0), [-1.0, 0.0, 0.0], Face::East),
        (BlockPos::new(0, 2, 0), [0.0, 1.0, 0.0], Face::Bottom),
        (BlockPos::new(0, -2, 0), [0.0, -1.0, 0.0], Face::Top),
        (BlockPos::new(0, 0, 2), [0.0, 0.0, 1.0], Face::North),
        (BlockPos::new(0, 0, -2), [0.0, 0.0, -1.0], Face::South),
    ] {
        world.0.insert(position, stone());
        let result = raycast(&world, ray([0.5, 0.5, 0.5], direction, 9.0).as_ref());
        assert_eq!(
            result,
            RayResult::Hit(RayHit {
                position,
                distance: distance(1.5),
                block: Block { id: "stone" },
                entered_face: Some(face),
            })
        );
    }
}

#[test]
fn ties_are_crossed_on_x_before_y_before_z() {
    let mut world = TestWorld::default();
    world.0.insert(BlockPos::new(1, 0, 0), stone());
    let diagonal = ray([0.5, 0.5, 0.5], [1.0, 1.0, 1.0], 9.0);
    assert!(matches!(
        raycast(&world, diagonal.as_ref()),
        RayResult::Hit(RayHit { position: BlockPos { x: 1, y: 0, z: 0 }, .. })
    ));
}

#[test]
fn distances_keep_their_bits_and_their_order() {
    let ordered = [f64::NEG_INFINITY, -2.5, -1e-300, 0.0, 1e-300, 0.5, 2.5, 48.0, f64::INFINITY];
    for pair in ordered.windows(2) {
        assert!(distance(pair[0]).key < distance(pair[1]).key);
    }
    for value in ordered {
        assert_eq!(blocks(distance(value)).to_bits(), value.to_bits());
    }
    assert_eq!(distance(5.0).key, mctui::report::INTERACTION_REACH_KEY);
}

#[test]
fn both_zeros_are_the_same_distance() {
    assert_eq!(distance(-0.0), distance(0.0));
    assert_eq!(distance(0.0).key, 0);
    assert_eq!(blocks(distance(-0.0)).to_bits(), 0.0_f64.to_bits());
    assert!(distance(-f64::MIN_POSITIVE).key < 0);

    let mut world = TestWorld::default();
    world.0.insert(BlockPos::new(-1, 0, 0), stone());
    world.0.insert(BlockPos::new(0, -1, 0), water());
    let diagonal = ray([0.0, -0.0, 0.5], [-1.0, -1.0, 0.0], 9.0);
    assert!(matches!(
        raycast(&world, diagonal.as_ref()),
        RayResult::Hit(RayHit { position: BlockPos { x: -1, y: 0, z: 0 }, .. })
    ));
}

#[test]
fn layers_are_collected_nearest_first() {
    let mut world = TestWorld::default();
    world.0.insert(BlockPos::new(1, 0, 0), water());
    world.0.insert(BlockPos::new(2, 1, 0), water());
    world.0.insert(BlockPos::new(3, 2, 0), stone());
    let scene = trace_scene(&world, ray([0.5, 0.25, 0.5], [1.0, 0.75, 0.0], 10.0).as_ref());
    let keys: Vec<i64> = scene.layers.iter().map(|layer| layer.distance.key).collect();
    assert_eq!(keys.len(), 2);
    assert!(keys[0] < keys[1]);
    assert!(matches!(
        scene.terminal,
        RayTerminal::Opaque(hit) if hit.position == BlockPos::new(3, 2, 0)
            && hit.distance.key > keys[1]
    ));
}

#[test]
fn translucent_blocks_continue_to_an_opaque_block_behind_them() {
    let mut world = TestWorld::default();
    world.0.insert(BlockPos::new(1, 0, 0), water());
    world.0.insert(BlockPos::new(2, 0, 0), stone());

    let scene = trace_scene(&world, ray([0.5, 0.5, 0.5], [1.0, 0.0, 0.0], 10.0).as_ref());

    assert_eq!(scene.layers.len(), 1);
    assert!(matches!(
        scene.terminal,
        RayTerminal::Opaque(RayHit { position: BlockPos { x: 2, y: 0, z: 0 }, .. })
    ));
}

#[test]
fn translucent_traversal_caps_at_four_layers() {
    let mut world = TestWorld::default();
    for x in 1..=5 {
        world.0.insert(BlockPos::new(x, 0, 0), water());
    }

    let scene = trace_scene(&world, ray([0.5, 0.5, 0.5], [1.0, 0.0, 0.0], 10.0).as_ref());

    assert_eq!(scene.layers.len(), MAX_TRANSLUCENT_LAYERS);
    assert!(matches!(scene.terminal, RayTerminal::LayerLimit));
}

#[test]
fn layers_are_blended_farthest_first() {
    let mut world = TestWorld::default();
    world.0.insert(BlockPos::new(1, 0, 0), water());
    world.0.insert(BlockPos::new(2, 0, 0), Voxel::Solid(Block { id: "glass" }));
    world.0.insert(BlockPos::new(3, 0, 0), stone());

    let plan = sample_surfaces(&world, ray([0.5, 0.5, 0.5], [1.0, 0.0, 0.0], 10.0).as_ref());

    let opacities: Vec<u8> = plan.layers.iter().map(|layer| layer.opacity).collect();
    assert_eq!(opacities, [30, 36]);
    assert_eq!(
        plan.backdrop,
        Backdrop::Surface(SurfaceSample {
            color: Rgb::new(125, 125, 125),
            opacity: 100,
            face_light: 84,
            light: LightLevels::full_sky(),
            distance: distance(2.5),
        })
    );
}

#[test]
fn palette_marks_water_and_glass_translucent_but_leaves_opaque() {
    assert!(block_appearance("water").is_translucent());
    assert!(block_appearance("glass_pane").is_translucent());
    assert!(!block_appearance("oak_leaves").is_translucent());
    assert!(block_appearance("water").camera_overlay.is_some());
    assert!(block_appearance("lava").camera_overlay.is_some());
}

#[test]
fn palette_families_have_their_colors() {
    assert_eq!(block_color("grass_block"), Rgb::new(94, 159, 53));
    assert_eq!(block_color("packed_ice"), Rgb::new(144, 195, 220));
    assert_eq!(block_color("birch_log"), Rgb::new(103, 78, 48));
    assert_eq!(block_color("oak_stairs"), Rgb::new(174, 137, 83));
    assert_eq!(block_color("iron_ore"), Rgb::new(132, 139, 144));
    assert_eq!(block_color("nether_bricks"), Rgb::new(166, 89, 67));
    assert_eq!(block_color("white_wool"), Rgb::new(233, 239, 245));
    assert_eq!(block_color("red_wool"), Rgb::new(193, 193, 193));
    assert_eq!(block_color(""), Rgb::new(151, 151, 151));
    assert_eq!(block_appearance("bubble_column").opacity, 36);
    assert_eq!(
        block_appearance("lava").camera_overlay,
        Some((Rgb::new(220, 73, 18), 58))
    );
    assert_eq!(minimap_character("coarse_dirt"), 'd');
    assert_eq!(minimap_character("oak_leaves"), 'T');
    assert_eq!(minimap_character("bedrock"), '+');
}

/// The colour of a surface, as the renderer shades it at noon.
fn shade(sample: SurfaceSample, sky: Rgb, reach: f64) -> Rgb {
    let effective =
        (sample.light.block as f32 / 15.0).max(sample.light.sky as f32 / 15.0);
    let brightness = 0.055 + 0.945 * (1.0 - (1.0 - effective).powf(2.1));
    let fog = ((blocks(sample.distance) / reach) as f32).clamp(0.0, 1.0).powf(1.65) * 0.28;
    let scale = sample.face_light as f32 / 100.0 * brightness;
    let scaled = Rgb::new(
        (sample.color.r as f32 * scale).round() as u8,
        (sample.color.g as f32 * scale).round() as u8,
        (sample.color.b as f32 * scale).round() as u8,
    );
    mix(scaled, sky, fog)
}

fn mix(a: Rgb, b: Rgb, amount: f32) -> Rgb {
    let channel = |a: u8, b: u8| (a as f32 + (b as f32 - a as f32) * amount).round() as u8;
    Rgb::new(channel(a.r, b.r), channel(a.g, b.g), channel(a.b, b.b))
}

#[test]
fn shading_samples_light_from_the_visible_faces_adjacent_cell() {
    let hit_position = BlockPos::new(1, 0, 0);
    let mut world = LightTestWorld {
        blocks: HashMap::from([(hit_position, stone())]),
        lights: HashMap::from([(BlockPos::new(0, 0, 0), LightLevels::full_sky())]),
    };
    let hit = RayHit {
        position: hit_position,
        distance: distance(1.0),
        block: Block { id: "stone" },
        entered_face: Some(Face::West),
    };
    let outside_lit = shade(shade_hit(&world, hit), Rgb::new(100, 180, 230), 10.0);

    world.lights.clear();
    let unlit = shade(shade_hit(&world, hit), Rgb::new(100, 180, 230), 10.0);

    assert!(outside_lit.r > unlit.r * 5);
}

#[test]
fn a_camera_inside_a_block_is_lit_by_its_own_cell() {
    let inside = BlockPos::new(4, 5, 6);
    let world = LightTestWorld {
        blocks: HashMap::from([(inside, water())]),
        lights: HashMap::from([(inside, LightLevels::new(3, 9))]),
    };
    let hit = RayHit {
        position: inside,
        distance: distance(0.0),
        block: Block { id: "water" },
        entered_face: None,
    };
    let sample = shade_hit(&world, hit);
    assert_eq!(sample.light, LightLevels::new(3, 9));
    assert_eq!(sample.face_light, 100);
    assert_eq!(camera_overlay(&world, inside), Some((Rgb::new(25, 78, 150), 46)));
    assert_eq!(camera_overlay(&world, BlockPos::new(0, 0, 0)), None);
}

/// A camera that looks south, with a horizontal field of view of 75 degrees.
struct Scene {
    origin: V,
    width: usize,
    height: usize,
    reach: f64,
}

impl Scene {
    /// How far the screen reaches from its middle, one block ahead.
    fn half_size(&self) -> (f64, f64) {
        let (width, height) = frame_size(self.width, self.height);
        let half_width = (75.0_f32.to_radians() as f64 / 2.0).tan();
        (half_width, half_width * height as f64 / width as f64)
    }

    fn rays(&self, x: usize, y: usize) -> Option<Ray> {
        let (width, height) = frame_size(self.width, self.height);
        let (half_width, half_height) = self.half_size();
        let screen_x = 2.0 * (x as f64 + 0.5) / width as f64 - 1.0;
        let screen_y = 1.0 - 2.0 * (y as f64 + 0.5) / height as f64;
        let direction = [screen_x * half_width, screen_y * half_height, 1.0];
        ray(self.origin, direction, self.reach)
    }

    fn marker(&self, position: V, width: f64, height: f64, category: EntityCategory) -> EntityMarker {
        let (columns, rows) = frame_size(self.width, self.height);
        let (half_width, half_height) = self.half_size();
        let feet = [
            position[0] - self.origin[0],
            position[1] - self.origin[1],
            position[2] - self.origin[2],
        ];
        let offset = [feet[0], feet[1] + height * 0.5, feet[2]];
        let far = dot(offset, offset).sqrt();
        let forward = offset[2];
        let in_front = far <= self.reach && forward > f64::EPSILON;
        let screen_x = offset[0] / (forward * half_width);
        let screen_y = offset[1] / (forward * half_height);
        let raw_height = (height / forward / half_height * rows as f64 * 0.5).round() as i64;
        let drawn = marker_height(raw_height) as f64;
        EntityMarker {
            category,
            distance: distance(dot(feet, feet).sqrt()),
            sight: if in_front { ray(self.origin, offset, far) } else { None },
            occlusion: distance(far - width.max(0.5) * 0.5),
            on_screen: (-1.2..=1.2).contains(&screen_x) && (-1.2..=1.2).contains(&screen_y),
            center_x: ((screen_x + 1.0) * 0.5 * columns as f64).floor() as i64,
            center_y: ((1.0 - screen_y) * 0.5 * rows as f64).floor() as i64,
            height: raw_height,
            width: (drawn * width / height).round() as i64,
        }
    }

    fn render(&self, world: &TestWorld, markers: &Vec<EntityMarker>) -> Frame {
        let sky = Rgb::new(132, 189, 233);
        Frame::render_with_entities(
            world,
            floor(self.origin),
            self.width,
            self.height,
            &|x: usize, y: usize| self.rays(x, y),
            &|_x: usize, _y: usize, plan: PixelPlan| {
                let mut color = match plan.backdrop {
                    Backdrop::Surface(sample) => shade(sample, sky, self.reach),
                    Backdrop::Sky => sky,
                    Backdrop::Unloaded { distance } => {
                        let fog = (blocks(distance) / self.reach.max(0.001)) as f32;
                        mix(Rgb::new(47, 39, 60), sky, fog.clamp(0.0, 1.0) * 0.25)
                    }
                };
                for layer in plan.layers {
                    color = mix(color, shade(layer, sky, self.reach), layer.opacity as f32 / 100.0);
                }
                color
            },
            markers,
            &|pixel: Rgb, color: Rgb| mix(pixel, color, 0.9),
            &|pixel: Rgb, color: Rgb, percent: u8| mix(pixel, color, percent as f32 / 100.0),
        )
    }
}

#[test]
fn entity_markers_are_hidden_by_terrain() {
    let scene = Scene { origin: [0.5, 0.5, 0.5], width: 9, height: 6, reach: 12.0 };
    let marker = scene.marker([0.5, 0.0, 5.5], 0.6, 1.8, EntityCategory::Player);
    let open_world = TestWorld::default();
    let empty = scene.render(&open_world, &Vec::new());
    let visible = scene.render(&open_world, &vec![marker.clone()]);
    assert_ne!(visible.pixels, empty.pixels);

    let mut walled_world = TestWorld::default();
    walled_world.0.insert(BlockPos::new(0, 0, 2), stone());
    let walled = scene.render(&walled_world, &Vec::new());
    let hidden = scene.render(&walled_world, &vec![marker]);
    assert_eq!(hidden.pixels, walled.pixels);
}

#[test]
fn markers_behind_unloaded_space_or_the_camera_are_not_seen() {
    let scene = Scene { origin: [0.5, 0.5, 0.5], width: 9, height: 6, reach: 12.0 };
    let ahead = scene.marker([0.5, 0.0, 5.5], 0.6, 1.8, EntityCategory::Hostile);
    let behind = scene.marker([0.5, 0.0, -5.5], 0.6, 1.8, EntityCategory::Hostile);
    let mut world = TestWorld::default();
    assert!(is_visible(&world, &ahead));
    assert!(!is_visible(&world, &behind));
    world.0.insert(BlockPos::new(0, 0, 3), Voxel::Unloaded);
    assert!(!is_visible(&world, &ahead));
    world.0.insert(BlockPos::new(0, 0, 3), water());
    assert!(is_visible(&world, &ahead));
    let aside = EntityMarker { on_screen: false, ..ahead };
    assert!(!is_visible(&world, &aside));
}

#[test]
fn a_marker_covers_its_head_and_its_body() {
    let scene = Scene { origin: [0.5, 0.5, 0.5], width: 7, height: 4, reach: 12.0 };
    let plain = |mark: Option<EntityMarker>| {
        let markers: Vec<EntityMarker> = mark.into_iter().collect();
        let frame = Frame::render_with_entities(
            &TestWorld::default(),
            floor(scene.origin),
            scene.width,
            scene.height,
            &|x: usize, y: usize| scene.rays(x, y),
            &|_x: usize, _y: usize, _plan: PixelPlan| Rgb::new(0, 0, 0),
            &markers,
            &|_pixel: Rgb, color: Rgb| color,
            &|pixel: Rgb, _color: Rgb, _percent: u8| pixel,
        );
        let mut covered = Vec::new();
        for y in 0..frame.sample_height {
            for x in 0..frame.width {
                if frame.pixel(x, y) != Rgb::new(0, 0, 0) {
                    covered.push((x, y));
                }
            }
        }
        covered
    };
    let marker = EntityMarker {
        category: EntityCategory::Passive,
        distance: distance(5.0),
        sight: ray(scene.origin, [0.0, 0.0, 1.0], 5.0),
        occlusion: distance(4.5),
        on_screen: true,
        center_x: 3,
        center_y: 4,
        height: 4,
        width: 3,
    };
    assert_eq!(plain(None), []);
    assert_eq!(
        plain(Some(marker.clone())),
        [(3, 2), (2, 3), (3, 3), (4, 3), (2, 4), (3, 4), (4, 4), (2, 5), (3, 5), (4, 5)]
    );
    let corner = EntityMarker { center_x: 0, center_y: 0, ..marker };
    assert_eq!(plain(Some(corner)), [(0, 0), (1, 0), (0, 1), (1, 1)]);
}

#[test]
fn marker_sizes_are_clamped() {
    assert_eq!([marker_height(-5), marker_height(7), marker_height(99)], [2, 7, 12]);
    assert_eq!([marker_width(0), marker_width(4), marker_width(99)], [1, 4, 6]);
    assert_eq!(frame_size(0, 0), (1, 2));
    assert_eq!(frame_size(80, 24), (80, 48));
    assert_eq!(frame_size(1, usize::MAX), (1, usize::MAX));
}

#[test]
fn frames_are_tinted_under_water() {
    let scene = Scene { origin: [0.5, 0.5, 0.5], width: 3, height: 2, reach: 4.0 };
    let mut world = TestWorld::default();
    world.0.insert(BlockPos::new(0, 0, 0), water());
    let frame = Frame::render(
        &world,
        floor(scene.origin),
        scene.width,
        scene.height,
        &|x: usize, y: usize| scene.rays(x, y),
        &|x: usize, y: usize, _plan: PixelPlan| Rgb::new(x as u8, y as u8, 0),
        &|pixel: Rgb, color: Rgb, percent: u8| Rgb::new(pixel.r, pixel.g, color.b + percent),
    );
    assert_eq!((frame.width, frame.sample_height), (3, 4));
    for y in 0..4 {
        for x in 0..3 {
            assert_eq!(frame.pixel(x, y), Rgb::new(x as u8, y as u8, 196));
        }
    }
}

#[test]
fn nearer_markers_are_drawn_later() {
    let scene = Scene { origin: [0.5, 0.5, 0.5], width: 9, height: 6, reach: 30.0 };
    let markers: Vec<EntityMarker> = [4.5, 9.5, 2.5, 9.5]
        .into_iter()
        .map(|z| scene.marker([0.5, 0.0, z], 0.6, 1.8, EntityCategory::Passive))
        .collect();
    assert_eq!(drawing_order(&markers), [1, 3, 0, 2]);
}

#[test]
fn the_order_in_which_markers_are_listed_does_not_matter() {
    let scene = Scene { origin: [0.5, 0.5, 0.5], width: 9, height: 6, reach: 30.0 };
    let far = scene.marker([0.5, 0.0, 9.5], 0.6, 1.8, EntityCategory::Hostile);
    let near = scene.marker([0.5, 0.0, 4.5], 0.6, 1.8, EntityCategory::Passive);
    let world = TestWorld::default();
    let frame = scene.render(&world, &vec![far.clone(), near.clone()]);
    assert_eq!(frame.pixels, scene.render(&world, &vec![near.clone(), far.clone()]).pixels);

    // Where they overlap, the nearer one was blended last.
    let (x, y) = (near.center_x as usize, near.center_y as usize);
    let behind = scene.render(&world, &vec![far]).pixel(x, y);
    assert_eq!(frame.pixel(x, y), mix(behind, EntityCategory::Passive.color(), 0.9));
    assert_ne!(behind, scene.render(&world, &Vec::new()).pixel(x, y));
}

#[test]
fn only_the_nearest_drawable_entities_are_handed_over() {
    let mut candidates: Vec<EntityCandidate> = (0..30)
        .map(|i| EntityCandidate {
            same_world: true,
            has_size: true,
            distance: distance((30 - i) as f64),
        })
        .collect();
    candidates[29].same_world = false;
    candidates[28].has_size = false;
    let order = nearest_entities(&candidates);
    assert_eq!(order.len(), 24);
    assert_eq!(order[0], 27);
    assert_eq!(order[23], 4);
    assert_eq!(nearest_entities(&Vec::new()), []);
}

#[test]
fn entity_kinds_fall_into_groups() {
    assert_eq!(entity_category("minecraft:player"), EntityCategory::Player);
    assert_eq!(entity_category("minecraft:zombified_piglin"), EntityCategory::Hostile);
    assert_eq!(entity_category("creeper"), EntityCategory::Hostile);
    assert_eq!(entity_category("minecraft:cow"), EntityCategory::Passive);
    assert_eq!(EntityCategory::Player.color(), Rgb::new(255, 224, 92));
    assert_eq!(EntityCategory::Passive.color(), Rgb::new(104, 226, 167));
    assert_eq!(EntityCategory::Hostile.color(), Rgb::new(244, 91, 91));
}

#[test]
fn positions_and_faces_have_names() {
    assert_eq!(BlockPos::new(-1, 64, 2147483647).to_string(), "(-1, 64, 2147483647)");
    assert_eq!(Face::Bottom.name(), "Bottom");
    assert_eq!(Face::Top.lighting(), 100);
    assert_eq!(
        Face::South.light_sample_position(BlockPos::new(1, 2, 3)),
        BlockPos::new(1, 2, 4)
    );
}
