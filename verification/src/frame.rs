//! The raster of a terminal frame: shading, entity markers and the camera
//! overlay.
use vstd::arithmetic::div_mod::lemma_fundamental_div_mod_converse;
use vstd::prelude::*;

use crate::entities::{
    category_color, drawing_order, is_ordering, is_visible, law_drawing_order_is_complete,
    marker_distances, marker_fits, precedes, visible, EntityMarker,
};
use crate::grid::{BlockPos, BlockSource};
use crate::palette::Rgb;
use crate::ray::{optional_ray_fits, Ray};
use crate::shade::{camera_overlay, is_plan_of, overlay_in, sample_surfaces, PixelPlan};

verus! {

/// The width of a frame in pixels: at least one.
pub open spec fn frame_width(columns: usize) -> int {
    if columns >= 1 {
        columns as int
    } else {
        1
    }
}

/// The height of a frame in pixels: two for each row of characters.
pub open spec fn frame_height(rows: usize) -> int {
    if rows < 1 {
        2
    } else if 2 * rows <= usize::MAX {
        2 * rows
    } else {
        usize::MAX as int
    }
}

/// Whether a frame of the given size can be held.
pub open spec fn frame_fits(columns: usize, rows: usize) -> bool {
    frame_width(columns) * frame_height(rows) <= usize::MAX
}

/// The size in pixels of a frame with the given columns and rows of
/// characters.
pub fn frame_size(columns: usize, rows: usize) -> (size: (usize, usize))
    ensures
        size.0 == frame_width(columns),
        size.1 == frame_height(rows),
{
    let width: usize = if columns >= 1 {
        columns
    } else {
        1
    };
    let height: usize = if rows < 1 {
        2
    } else if rows <= usize::MAX / 2 {
        2 * rows
    } else {
        usize::MAX
    };
    (width, height)
}

/// A raster at twice the terminal's vertical character resolution.
#[derive(Clone, Debug)]
pub struct Frame {
    pub width: usize,
    pub sample_height: usize,
    pub pixels: Vec<Rgb>,
}

/// The place of a pixel in its frame.
pub open spec fn pixel_index(width: usize, x: int, y: int) -> int {
    y * width + x
}

/// The height that a marker is drawn with.
pub open spec fn drawn_height(height: i64) -> int {
    if height < 2 {
        2
    } else if height > 12 {
        12
    } else {
        height as int
    }
}

/// The width that a marker is drawn with.
pub open spec fn drawn_width(width: i64) -> int {
    if width < 1 {
        1
    } else if width > 6 {
        6
    } else {
        width as int
    }
}

/// The height that a marker is drawn with: two to twelve pixels.
pub fn marker_height(height: i64) -> (drawn: i64)
    ensures
        drawn == drawn_height(height),
{
    if height < 2 {
        2
    } else if height > 12 {
        12
    } else {
        height
    }
}

/// The width that a marker is drawn with: one to six pixels.
pub fn marker_width(width: i64) -> (drawn: i64)
    ensures
        drawn == drawn_width(width),
{
    if width < 1 {
        1
    } else if width > 6 {
        6
    } else {
        width
    }
}

/// Whether a marker covers a pixel: it is a column of rows around the middle,
/// whose topmost row, the head, is one pixel wide.
pub open spec fn covers(marker: EntityMarker, x: int, y: int) -> bool {
    let top = marker.center_y - drawn_height(marker.height) / 2;
    let half = if y == top {
        0
    } else {
        drawn_width(marker.width) / 2
    };
    &&& top <= y < top + drawn_height(marker.height)
    &&& marker.center_x - half <= x <= marker.center_x + half
}

/// Whether a marker was drawn over a frame: exactly the pixels that it covers
/// were mixed with its colour.
pub open spec fn marker_drawn<M: Fn(Rgb, Rgb) -> Rgb>(
    before: Seq<Rgb>,
    after: Seq<Rgb>,
    width: usize,
    marker: EntityMarker,
    mix: M,
) -> bool {
    &&& after.len() == before.len()
    &&& forall|i: int|
        #![trigger after[i]]
        0 <= i < after.len() ==> if covers(marker, i % (width as int), i / (width as int)) {
            call_ensures(mix, (before[i], category_color(marker.category)), after[i])
        } else {
            after[i] == before[i]
        }
}

/// Whether one step of drawing took a frame from `before` to `after`: a
/// visible marker was drawn, or an invisible one left out.
pub open spec fn marker_handled<S: BlockSource, M: Fn(Rgb, Rgb) -> Rgb>(
    source: &S,
    before: Seq<Rgb>,
    after: Seq<Rgb>,
    width: usize,
    marker: EntityMarker,
    mix: M,
) -> bool {
    if visible(source, marker) {
        marker_drawn(before, after, width, marker, mix)
    } else {
        after == before
    }
}

/// Whether `history` holds the frame before the first and after each marker,
/// in the given order of drawing.
pub open spec fn is_history<S: BlockSource, M: Fn(Rgb, Rgb) -> Rgb>(
    source: &S,
    history: Seq<Seq<Rgb>>,
    width: usize,
    markers: Seq<EntityMarker>,
    order: Seq<usize>,
    mix: M,
) -> bool {
    &&& history.len() > 0
    &&& forall|k: int|
        0 <= k < history.len() - 1 ==> #[trigger] marker_handled(
            source,
            history[k],
            history[k + 1],
            width,
            markers[order[k] as int],
            mix,
        )
}

/// Whether markers were drawn over a frame, far to near.
pub open spec fn markers_drawn<S: BlockSource, M: Fn(Rgb, Rgb) -> Rgb>(
    source: &S,
    before: Seq<Rgb>,
    after: Seq<Rgb>,
    width: usize,
    markers: Seq<EntityMarker>,
    mix: M,
) -> bool {
    exists|order: Seq<usize>, history: Seq<Seq<Rgb>>|
        #![trigger is_history(source, history, width, markers, order, mix)]
        is_ordering(marker_distances(markers), |place: int| true, true, order) && is_history(
            source,
            history,
            width,
            markers,
            order,
            mix,
        ) && history.len() == order.len() + 1 && history[0] == before && history.last() == after
}

/// Whether a pixel has the blended colour of what its ray shows.
pub open spec fn shaded<
    S: BlockSource,
    R: Fn(usize, usize) -> Option<Ray>,
    B: Fn(usize, usize, PixelPlan) -> Rgb,
>(source: &S, rays: R, blend: B, x: usize, y: usize, color: Rgb) -> bool {
    exists|ray: Option<Ray>, plan: PixelPlan| #[trigger]
        call_ensures(rays, (x, y), ray) && is_plan_of(source, ray, plan) && #[trigger] call_ensures(
            blend,
            (x, y, plan),
            color,
        )
}

/// Whether every pixel has the blended colour of what its ray shows.
pub open spec fn all_shaded<
    S: BlockSource,
    R: Fn(usize, usize) -> Option<Ray>,
    B: Fn(usize, usize, PixelPlan) -> Rgb,
>(source: &S, rays: R, blend: B, width: usize, pixels: Seq<Rgb>) -> bool {
    forall|i: int|
        0 <= i < pixels.len() ==> shaded(
            source,
            rays,
            blend,
            (i % (width as int)) as usize,
            (i / (width as int)) as usize,
            #[trigger] pixels[i],
        )
}

/// Whether every pixel of a frame was tinted, or none where nothing tints.
pub open spec fn tinted<T: Fn(Rgb, Rgb, u8) -> Rgb>(
    before: Seq<Rgb>,
    after: Seq<Rgb>,
    overlay: Option<(Rgb, u8)>,
    tint: T,
) -> bool {
    match overlay {
        Some((color, percent)) => {
            &&& after.len() == before.len()
            &&& forall|i: int|
                0 <= i < after.len() ==> call_ensures(
                    tint,
                    (before[i], color, percent),
                    #[trigger] after[i],
                )
        },
        None => after == before,
    }
}

/// Whether pixels are those of a frame: the terrain, the markers drawn over it,
/// and the tint around the eye over both.
pub open spec fn is_rendered<
    S: BlockSource,
    R: Fn(usize, usize) -> Option<Ray>,
    B: Fn(usize, usize, PixelPlan) -> Rgb,
    M: Fn(Rgb, Rgb) -> Rgb,
    T: Fn(Rgb, Rgb, u8) -> Rgb,
>(
    source: &S,
    eye: BlockPos,
    rays: R,
    blend: B,
    markers: Seq<EntityMarker>,
    mix: M,
    tint: T,
    width: usize,
    pixels: Seq<Rgb>,
) -> bool {
    exists|terrain: Seq<Rgb>, scene: Seq<Rgb>|
        #![trigger markers_drawn(source, terrain, scene, width, markers, mix)]
        terrain.len() == pixels.len() && all_shaded(source, rays, blend, width, terrain)
            && markers_drawn(source, terrain, scene, width, markers, mix) && tinted(
            scene,
            pixels,
            overlay_in(source, eye),
            tint,
        )
}

/// Whether pixels are those of a frame without markers.
pub open spec fn is_view<
    S: BlockSource,
    R: Fn(usize, usize) -> Option<Ray>,
    B: Fn(usize, usize, PixelPlan) -> Rgb,
    T: Fn(Rgb, Rgb, u8) -> Rgb,
>(source: &S, eye: BlockPos, rays: R, blend: B, tint: T, width: usize, pixels: Seq<Rgb>) -> bool {
    exists|terrain: Seq<Rgb>|
        #![trigger tinted(terrain, pixels, overlay_in(source, eye), tint)]
        terrain.len() == pixels.len() && all_shaded(source, rays, blend, width, terrain) && tinted(
            terrain,
            pixels,
            overlay_in(source, eye),
            tint,
        )
}

/// The coordinates of a pixel follow from its place in the frame.
pub proof fn law_pixel_coordinates(width: usize, x: int, y: int)
    requires
        0 <= x < width,
        0 <= y,
    ensures
        pixel_index(width, x, y) % (width as int) == x,
        pixel_index(width, x, y) / (width as int) == y,
{
    lemma_fundamental_div_mod_converse(pixel_index(width, x, y), width as int, y, x);
}

/// A pixel of a frame lies within the frame.
proof fn lemma_index_fits(width: usize, height: usize, x: int, y: int)
    requires
        0 <= x < width,
        0 <= y < height,
    ensures
        0 <= pixel_index(width, x, y) < width * height,
{
    assert(0 <= y * width + x < width * height) by (nonlinear_arith)
        requires
            0 <= x < width,
            0 <= y < height,
    ;
}

impl Frame {
    /// The frame holds one colour for each pixel.
    pub open spec fn wf(self) -> bool {
        &&& self.width > 0
        &&& self.pixels@.len() == self.width * self.sample_height
    }

    /// The colour of a pixel.
    pub fn pixel(&self, x: usize, y: usize) -> (color: Rgb)
        requires
            pixel_index(self.width, x as int, y as int) < self.pixels@.len(),
        ensures
            color == self.pixels@[pixel_index(self.width, x as int, y as int)],
    {
        assert(self.pixels@.len() == self.pixels.len());
        assert(0 <= y * self.width) by (nonlinear_arith);
        self.pixels[y * self.width + x]
    }

    /// Shades every pixel with the blended colour of what its ray shows.
    fn shade<S: BlockSource, R: Fn(usize, usize) -> Option<Ray>, B: Fn(usize, usize, PixelPlan) -> Rgb>(
        source: &S,
        width: usize,
        sample_height: usize,
        rays: &R,
        blend: &B,
    ) -> (pixels: Vec<Rgb>)
        requires
            width > 0,
            width * sample_height <= usize::MAX,
            rays_fit(*rays, width as int, sample_height as int),
            forall|x: usize, y: usize, plan: PixelPlan| call_requires(*blend, (x, y, plan)),
        ensures
            pixels@.len() == width * sample_height,
            all_shaded(source, *rays, *blend, width, pixels@),
    {
        let mut pixels: Vec<Rgb> = Vec::new();
        let mut y: usize = 0;
        assert(0 * width == 0) by (nonlinear_arith);
        while y < sample_height
            invariant
                y <= sample_height,
                width > 0,
                pixels@.len() == y * width,
                rays_fit(*rays, width as int, sample_height as int),
                forall|x: usize, y: usize, plan: PixelPlan| call_requires(*blend, (x, y, plan)),
                all_shaded(source, *rays, *blend, width, pixels@),
            decreases sample_height - y,
        {
            let mut x: usize = 0;
            while x < width
                invariant
                    x <= width,
                    y < sample_height,
                    width > 0,
                    pixels@.len() == pixel_index(width, x as int, y as int),
                    rays_fit(*rays, width as int, sample_height as int),
                    forall|x: usize, y: usize, plan: PixelPlan| call_requires(*blend, (x, y, plan)),
                    all_shaded(source, *rays, *blend, width, pixels@),
                decreases width - x,
            {
                let ghost before = pixels@;
                let ray = rays(x, y);
                let plan = sample_surfaces(source, ray.as_ref());
                let ghost kept = plan;
                let color = blend(x, y, plan);
                pixels.push(color);
                proof {
                    law_pixel_coordinates(width, x as int, y as int);
                    assert(shaded(source, *rays, *blend, x, y, color)) by {
                        assert(call_ensures(*rays, (x, y), ray));
                        assert(call_ensures(*blend, (x, y, kept), color));
                    }
                    assert forall|i: int| 0 <= i < pixels@.len() implies shaded(
                        source,
                        *rays,
                        *blend,
                        (i % (width as int)) as usize,
                        (i / (width as int)) as usize,
                        #[trigger] pixels@[i],
                    ) by {
                        if i < before.len() {
                            assert(pixels@[i] == before[i]);
                        }
                    }
                }
                x = x + 1;
            }
            y = y + 1;
            assert(y * width == pixel_index(width, width as int, y - 1)) by (nonlinear_arith)
                requires
                    pixel_index(width, width as int, y - 1) == (y - 1) * width + width,
            ;
        }
        assert(sample_height * width == width * sample_height) by (nonlinear_arith);
        pixels
    }
}

/// Whether every pixel of a frame has a usable ray.
pub open spec fn rays_fit<R: Fn(usize, usize) -> Option<Ray>>(rays: R, width: int, height: int) -> bool {
    &&& forall|x: usize, y: usize| x < width && y < height ==> call_requires(rays, (x, y))
    &&& forall|x: usize, y: usize, ray: Option<Ray>|
        x < width && y < height && #[trigger] call_ensures(rays, (x, y), ray) ==> optional_ray_fits(
            ray,
        )
}

/// Whether the part of a marker before pixel `(x, y)`, read row by row, was
/// drawn over a frame.
spec fn partly_drawn<M: Fn(Rgb, Rgb) -> Rgb>(
    before: Seq<Rgb>,
    after: Seq<Rgb>,
    width: usize,
    marker: EntityMarker,
    mix: M,
    x: int,
    y: int,
) -> bool {
    &&& after.len() == before.len()
    &&& forall|i: int|
        #![trigger after[i]]
        0 <= i < after.len() ==> {
            let column = i % (width as int);
            let row = i / (width as int);
            if covers(marker, column, row) && (row < y || (row == y && column < x)) {
                call_ensures(mix, (before[i], category_color(marker.category)), after[i])
            } else {
                after[i] == before[i]
            }
        }
}

/// A pixel of a frame lies in one of the frame's rows.
proof fn lemma_row_fits(width: usize, height: usize, i: int)
    requires
        width > 0,
        0 <= i < width * height,
    ensures
        0 <= i % (width as int) < width,
        0 <= i / (width as int) < height,
        i == pixel_index(width, i % (width as int), i / (width as int)),
{
    vstd::arithmetic::div_mod::lemma_fundamental_div_mod(i, width as int);
    let q = i / (width as int);
    assert(q < height) by (nonlinear_arith)
        requires
            i == width * q + i % (width as int),
            0 <= i % (width as int),
            i < width * height,
            width > 0,
    ;
    assert(0 <= q) by (nonlinear_arith)
        requires
            i == width * q + i % (width as int),
            i % (width as int) < width,
            0 <= i,
            width > 0,
    ;
    assert(width * q == q * width) by (nonlinear_arith);
}

/// Draws a marker over a frame.
fn draw_marker<M: Fn(Rgb, Rgb) -> Rgb>(
    pixels: &mut Vec<Rgb>,
    width: usize,
    sample_height: usize,
    marker: &EntityMarker,
    mix: &M,
)
    requires
        width > 0,
        old(pixels)@.len() == width * sample_height,
        forall|a: Rgb, b: Rgb| call_requires(*mix, (a, b)),
    ensures
        marker_drawn(old(pixels)@, final(pixels)@, width, *marker, *mix),
{
    let color = marker.category.color();
    let height: i128 = marker_height(marker.height) as i128;
    let half_width: i128 = (marker_width(marker.width) / 2) as i128;
    let top: i128 = marker.center_y as i128 - height / 2;
    let center_x: i128 = marker.center_x as i128;
    let mut row: i128 = 0;
    while row < height
        invariant
            0 <= row <= height,
            2 <= height <= 12,
            0 <= half_width <= 3,
            width > 0,
            pixels@.len() == width * sample_height,
            forall|a: Rgb, b: Rgb| call_requires(*mix, (a, b)),
            color == category_color(marker.category),
            height == drawn_height(marker.height),
            half_width == drawn_width(marker.width) / 2,
            top == marker.center_y - height / 2,
            center_x == marker.center_x,
            partly_drawn(
                old(pixels)@,
                pixels@,
                width,
                *marker,
                *mix,
                center_x - 4,
                top + row,
            ),
        decreases height - row,
    {
        let y: i128 = top + row;
        let half: i128 = if row == 0 {
            0
        } else {
            half_width
        };
        let mut x: i128 = center_x - half;
        assert(partly_drawn(old(pixels)@, pixels@, width, *marker, *mix, x as int, y as int));
        while x <= center_x + half
            invariant
                center_x - half <= x <= center_x + half + 1,
                0 <= half <= 3,
                half == (if row == 0 {
                    0
                } else {
                    half_width as int
                }),
                y == top + row,
                0 <= row < height,
                2 <= height <= 12,
                width > 0,
                pixels@.len() == width * sample_height,
                forall|a: Rgb, b: Rgb| call_requires(*mix, (a, b)),
                color == category_color(marker.category),
                height == drawn_height(marker.height),
                half_width == drawn_width(marker.width) / 2,
                top == marker.center_y - height / 2,
                center_x == marker.center_x,
                partly_drawn(old(pixels)@, pixels@, width, *marker, *mix, x as int, y as int),
            decreases center_x + half + 1 - x,
        {
            let ghost before = pixels@;
            if x >= 0 && x < width as i128 && y >= 0 && y < sample_height as i128 {
                let column: usize = x as usize;
                let line: usize = y as usize;
                proof {
                    lemma_index_fits(width, sample_height, x as int, y as int);
                    law_pixel_coordinates(width, x as int, y as int);
                    assert(0 <= line * width) by (nonlinear_arith);
                    assert(pixels@.len() == pixels.len());
                }
                let index: usize = line * width + column;
                let mixed = mix(pixels[index], color);
                pixels.set(index, mixed);
                assert(before[index as int] == old(pixels)@[index as int]);
            }
            proof {
                assert forall|i: int| #![trigger pixels@[i]] 0 <= i < pixels@.len() implies {
                    let column = i % (width as int);
                    let line = i / (width as int);
                    if covers(*marker, column, line) && (line < y || (line == y && column < x + 1)) {
                        call_ensures(
                            *mix,
                            (old(pixels)@[i], category_color(marker.category)),
                            pixels@[i],
                        )
                    } else {
                        pixels@[i] == old(pixels)@[i]
                    }
                } by {
                    lemma_row_fits(width, sample_height, i);
                    let column = i % (width as int);
                    let line = i / (width as int);
                    if !(line == y && column == x) {
                        assert(pixels@[i] == before[i]);
                    }
                }
            }
            x = x + 1;
        }
        row = row + 1;
    }
}

/// Draws markers over a frame, far to near, leaving out those that cannot be
/// seen.
fn draw_entities<S: BlockSource, M: Fn(Rgb, Rgb) -> Rgb>(
    source: &S,
    pixels: &mut Vec<Rgb>,
    width: usize,
    sample_height: usize,
    markers: &Vec<EntityMarker>,
    mix: &M,
)
    requires
        width > 0,
        old(pixels)@.len() == width * sample_height,
        forall|k: int| 0 <= k < markers@.len() ==> marker_fits(#[trigger] markers@[k]),
        forall|a: Rgb, b: Rgb| call_requires(*mix, (a, b)),
    ensures
        final(pixels)@.len() == old(pixels)@.len(),
        markers_drawn(source, old(pixels)@, final(pixels)@, width, markers@, *mix),
{
    let order = drawing_order(markers);
    let ghost mut history: Seq<Seq<Rgb>> = seq![pixels@];
    let mut k: usize = 0;
    while k < order.len()
        invariant
            k <= order@.len(),
            width > 0,
            pixels@.len() == width * sample_height,
            forall|k: int| 0 <= k < markers@.len() ==> marker_fits(#[trigger] markers@[k]),
            forall|a: Rgb, b: Rgb| call_requires(*mix, (a, b)),
            is_ordering(marker_distances(markers@), |place: int| true, true, order@),
            is_history(source, history, width, markers@, order@, *mix),
            history.len() == k + 1,
            history[0] == old(pixels)@,
            history.last() == pixels@,
        decreases order@.len() - k,
    {
        let ghost before = pixels@;
        let place = order[k];
        assert(place < marker_distances(markers@).len());
        let marker = &markers[place];
        if is_visible(source, marker) {
            draw_marker(pixels, width, sample_height, marker, mix);
        }
        proof {
            let longer = history.push(pixels@);
            assert forall|j: int| 0 <= j < longer.len() - 1 implies #[trigger] marker_handled(
                source,
                longer[j],
                longer[j + 1],
                width,
                markers@[order@[j] as int],
                *mix,
            ) by {
                if j < k {
                    assert(longer[j] == history[j] && longer[j + 1] == history[j + 1]);
                    assert(marker_handled(
                        source,
                        history[j],
                        history[j + 1],
                        width,
                        markers@[order@[j] as int],
                        *mix,
                    ));
                } else {
                    assert(longer[j] == before && longer[j + 1] == pixels@);
                }
            }
            history = longer;
        }
        k = k + 1;
    }
}

/// Tints a frame as the material around the camera does.
fn tint_frame<T: Fn(Rgb, Rgb, u8) -> Rgb>(
    pixels: &mut Vec<Rgb>,
    overlay: Option<(Rgb, u8)>,
    tint: &T,
)
    requires
        forall|a: Rgb, b: Rgb, percent: u8| call_requires(*tint, (a, b, percent)),
    ensures
        tinted(old(pixels)@, final(pixels)@, overlay, *tint),
{
    match overlay {
        None => {},
        Some((color, percent)) => {
            let mut i: usize = 0;
            while i < pixels.len()
                invariant
                    i <= pixels@.len(),
                    pixels@.len() == old(pixels)@.len(),
                    forall|a: Rgb, b: Rgb, percent: u8| call_requires(*tint, (a, b, percent)),
                    forall|k: int|
                        0 <= k < i ==> call_ensures(
                            *tint,
                            (old(pixels)@[k], color, percent),
                            #[trigger] pixels@[k],
                        ),
                    forall|k: int| i <= k < pixels@.len() ==> #[trigger] pixels@[k] == old(pixels)@[k],
                decreases pixels@.len() - i,
            {
                let mixed = tint(pixels[i], color, percent);
                pixels.set(i, mixed);
                i = i + 1;
            }
        },
    }
}

impl Frame {
    /// Render a frame and overlay depth-tested markers of nearby entities.
    ///
    /// `rays` gives the view ray of a pixel and `blend` the colour of the
    /// surfaces on it; `mix` lays a marker's colour over a pixel, and `tint` a
    /// percentage of the colour around a camera at `eye`.
    pub fn render_with_entities<
        S: BlockSource,
        R: Fn(usize, usize) -> Option<Ray>,
        B: Fn(usize, usize, PixelPlan) -> Rgb,
        M: Fn(Rgb, Rgb) -> Rgb,
        T: Fn(Rgb, Rgb, u8) -> Rgb,
    >(
        source: &S,
        eye: BlockPos,
        columns: usize,
        rows: usize,
        rays: &R,
        blend: &B,
        entities: &Vec<EntityMarker>,
        mix: &M,
        tint: &T,
    ) -> (frame: Self)
        requires
            frame_fits(columns, rows),
            rays_fit(*rays, frame_width(columns), frame_height(rows)),
            forall|x: usize, y: usize, plan: PixelPlan| call_requires(*blend, (x, y, plan)),
            forall|k: int| 0 <= k < entities@.len() ==> marker_fits(#[trigger] entities@[k]),
            forall|a: Rgb, b: Rgb| call_requires(*mix, (a, b)),
            forall|a: Rgb, b: Rgb, percent: u8| call_requires(*tint, (a, b, percent)),
        ensures
            frame.wf(),
            frame.width == frame_width(columns),
            frame.sample_height == frame_height(rows),
            is_rendered(
                source,
                eye,
                *rays,
                *blend,
                entities@,
                *mix,
                *tint,
                frame.width,
                frame.pixels@,
            ),
    {
        let (width, sample_height) = frame_size(columns, rows);
        let mut pixels = Frame::shade(source, width, sample_height, rays, blend);
        let ghost terrain = pixels@;
        draw_entities(source, &mut pixels, width, sample_height, entities, mix);
        let ghost scene = pixels@;
        tint_frame(&mut pixels, camera_overlay(source, eye), tint);
        assert(markers_drawn(source, terrain, scene, width, entities@, *mix));
        Frame { width, sample_height, pixels }
    }

    /// Render a frame from the supplied loaded-world view.
    pub fn render<
        S: BlockSource,
        R: Fn(usize, usize) -> Option<Ray>,
        B: Fn(usize, usize, PixelPlan) -> Rgb,
        T: Fn(Rgb, Rgb, u8) -> Rgb,
    >(
        source: &S,
        eye: BlockPos,
        columns: usize,
        rows: usize,
        rays: &R,
        blend: &B,
        tint: &T,
    ) -> (frame: Self)
        requires
            frame_fits(columns, rows),
            rays_fit(*rays, frame_width(columns), frame_height(rows)),
            forall|x: usize, y: usize, plan: PixelPlan| call_requires(*blend, (x, y, plan)),
            forall|a: Rgb, b: Rgb, percent: u8| call_requires(*tint, (a, b, percent)),
        ensures
            frame.wf(),
            frame.width == frame_width(columns),
            frame.sample_height == frame_height(rows),
            is_view(source, eye, *rays, *blend, *tint, frame.width, frame.pixels@),
    {
        let (width, sample_height) = frame_size(columns, rows);
        let mut pixels = Frame::shade(source, width, sample_height, rays, blend);
        let ghost terrain = pixels@;
        tint_frame(&mut pixels, camera_overlay(source, eye), tint);
        assert(tinted(terrain, pixels@, overlay_in(source, eye), *tint));
        Frame { width, sample_height, pixels }
    }
}

/// A frame has two pixels for every character row and one for every column.
pub proof fn law_frame_doubles_its_rows(columns: usize, rows: usize)
    requires
        columns >= 1,
        1 <= rows,
        2 * rows <= usize::MAX,
    ensures
        frame_width(columns) == columns,
        frame_height(rows) == 2 * rows,
{
}

/// A marker takes at most twelve rows of at most seven pixels, its head one
/// pixel, and it is symmetric about its middle.
pub proof fn law_marker_shape(marker: EntityMarker, x: int, y: int)
    requires
        covers(marker, x, y),
    ensures
        -6 <= y - marker.center_y < 6,
        -3 <= x - marker.center_x <= 3,
        covers(marker, 2 * marker.center_x - x, y),
        covers(marker, marker.center_x as int, y),
        y == marker.center_y - drawn_height(marker.height) / 2 ==> x == marker.center_x,
{
}

/// Markers that cannot be seen leave no trace on a frame.
pub proof fn law_hidden_markers_change_nothing<S: BlockSource, M: Fn(Rgb, Rgb) -> Rgb>(
    source: &S,
    before: Seq<Rgb>,
    after: Seq<Rgb>,
    width: usize,
    markers: Seq<EntityMarker>,
    mix: M,
)
    requires
        markers_drawn(source, before, after, width, markers, mix),
        forall|k: int| 0 <= k < markers.len() ==> !visible(source, #[trigger] markers[k]),
    ensures
        after == before,
{
    let (order, history) = choose|order: Seq<usize>, history: Seq<Seq<Rgb>>|
        #![trigger is_history(source, history, width, markers, order, mix)]
        is_ordering(marker_distances(markers), |place: int| true, true, order) && is_history(
            source,
            history,
            width,
            markers,
            order,
            mix,
        ) && history.len() == order.len() + 1 && history[0] == before && history.last() == after;
    lemma_still_history(source, history, width, markers, order, mix, order.len());
}

proof fn lemma_still_history<S: BlockSource, M: Fn(Rgb, Rgb) -> Rgb>(
    source: &S,
    history: Seq<Seq<Rgb>>,
    width: usize,
    markers: Seq<EntityMarker>,
    order: Seq<usize>,
    mix: M,
    n: nat,
)
    requires
        is_ordering(marker_distances(markers), |place: int| true, true, order),
        is_history(source, history, width, markers, order, mix),
        history.len() == order.len() + 1,
        forall|k: int| 0 <= k < markers.len() ==> !visible(source, #[trigger] markers[k]),
        n <= order.len(),
    ensures
        history[n as int] == history[0],
    decreases n,
{
    if n > 0 {
        lemma_still_history(source, history, width, markers, order, mix, (n - 1) as nat);
        assert(order[n - 1] < marker_distances(markers).len());
        assert(marker_handled(
            source,
            history[n - 1],
            history[n - 1 + 1],
            width,
            markers[order[n - 1] as int],
            mix,
        ));
        assert(!visible(source, markers[order[n - 1] as int]));
    }
}

/// Whether a way of mixing colours always gives the same result.
pub open spec fn mixes_the_same<M: Fn(Rgb, Rgb) -> Rgb>(mix: M) -> bool {
    forall|pixel: Rgb, color: Rgb, a: Rgb, b: Rgb|
        #![trigger call_ensures(mix, (pixel, color), a), call_ensures(mix, (pixel, color), b)]
        call_ensures(mix, (pixel, color), a) && call_ensures(mix, (pixel, color), b) ==> a == b
}

/// Whether no two markers are equally far.
pub open spec fn all_apart(markers: Seq<EntityMarker>) -> bool {
    forall|i: int, j: int|
        0 <= i < markers.len() && 0 <= j < markers.len() && i != j ==> (
        #[trigger] markers[i]).distance.key != (#[trigger] markers[j]).distance.key
}

/// Markers in a given order of drawing.
pub open spec fn drawn_in(markers: Seq<EntityMarker>, order: Seq<usize>) -> Seq<EntityMarker> {
    Seq::new(order.len(), |k: int| markers[order[k] as int])
}

/// Whether markers stand far to near, no two equally far.
spec fn strictly_nearing(markers: Seq<EntityMarker>) -> bool {
    forall|k: int, l: int|
        0 <= k < l < markers.len() ==> (#[trigger] markers[k]).distance.key > (
        #[trigger] markers[l]).distance.key
}

/// Markers of which no two are equally far are drawn far to near, every one of
/// them.
proof fn lemma_drawn_nearing(markers: Seq<EntityMarker>, order: Seq<usize>)
    requires
        markers.len() <= usize::MAX,
        all_apart(markers),
        is_ordering(marker_distances(markers), |place: int| true, true, order),
    ensures
        strictly_nearing(drawn_in(markers, order)),
        forall|marker: EntityMarker|
            #![trigger markers.contains(marker)]
            #![trigger drawn_in(markers, order).contains(marker)]
            markers.contains(marker) <==> drawn_in(markers, order).contains(marker),
{
    let keys = marker_distances(markers);
    let drawn = drawn_in(markers, order);
    assert forall|k: int, l: int| 0 <= k < l < drawn.len() implies (
    #[trigger] drawn[k]).distance.key > (#[trigger] drawn[l]).distance.key by {
        assert(order[k] < keys.len() && order[l] < keys.len());
        assert(precedes(keys, true, order[k] as int, order[l] as int));
        assert(keys[order[k] as int] == drawn[k].distance && keys[order[l] as int]
            == drawn[l].distance);
        assert(markers[order[k] as int] == drawn[k] && markers[order[l] as int] == drawn[l]);
    }
    assert forall|marker: EntityMarker| #[trigger]
        markers.contains(marker) <==> drawn.contains(marker) by {
        if markers.contains(marker) {
            let i = choose|i: int| 0 <= i < markers.len() && markers[i] == marker;
            assert(order.contains(i as usize));
            let k = choose|k: int| 0 <= k < order.len() && order[k] == i as usize;
            assert(drawn[k] == marker);
        }
        if drawn.contains(marker) {
            let k = choose|k: int| 0 <= k < drawn.len() && drawn[k] == marker;
            assert(order[k] < keys.len());
            assert(markers[order[k] as int] == marker);
        }
    }
}

/// Two lists of the same markers, both far to near, start the same.
proof fn lemma_nearing_agree(a: Seq<EntityMarker>, b: Seq<EntityMarker>, n: nat)
    requires
        strictly_nearing(a),
        strictly_nearing(b),
        forall|marker: EntityMarker| #[trigger] a.contains(marker) <==> b.contains(marker),
        n <= a.len(),
    ensures
        n <= b.len(),
        forall|k: int| 0 <= k < n ==> #[trigger] a[k] == b[k],
    decreases n,
{
    if n > 0 {
        let last = n - 1;
        lemma_nearing_agree(a, b, last as nat);
        assert(a.contains(a[last]));
        assert(b.contains(a[last]));
        let at = choose|at: int| 0 <= at < b.len() && b[at] == a[last];
        if at < last {
            assert(a[at] == b[at]);
        } else if at > last {
            assert(b.contains(b[last]));
            assert(a.contains(b[last]));
            let other = choose|other: int| 0 <= other < a.len() && a[other] == b[last];
            assert(b[last].distance.key > b[at].distance.key);
            if other < last {
                assert(a[other] == b[other]);
            } else if other > last {
                assert(a[last].distance.key > a[other].distance.key);
            }
        }
    }
}

/// A list of the same markers has no two that are equally far either.
proof fn lemma_apart_permuted(a: Seq<EntityMarker>, b: Seq<EntityMarker>)
    requires
        all_apart(a),
        a.to_multiset() == b.to_multiset(),
    ensures
        all_apart(b),
        forall|marker: EntityMarker| #[trigger] a.contains(marker) <==> b.contains(marker),
{
    a.to_multiset_ensures();
    b.to_multiset_ensures();
    assert(a.no_duplicates());
    a.lemma_multiset_has_no_duplicates();
    b.lemma_multiset_has_no_duplicates_conv();
    assert forall|marker: EntityMarker| #[trigger] a.contains(marker) <==> b.contains(marker) by {
        assert(a.contains(marker) <==> a.to_multiset().count(marker) > 0);
        assert(b.contains(marker) <==> b.to_multiset().count(marker) > 0);
    }
    assert forall|i: int, j: int|
        0 <= i < b.len() && 0 <= j < b.len() && i != j implies (#[trigger] b[i]).distance.key != (
    #[trigger] b[j]).distance.key by {
        assert(b.contains(b[i]) && b.contains(b[j]));
        assert(a.contains(b[i]) && a.contains(b[j]));
        let k = choose|k: int| 0 <= k < a.len() && a[k] == b[i];
        let l = choose|l: int| 0 <= l < a.len() && a[l] == b[j];
        assert(b[i] != b[j]);
        assert(a[k].distance.key != a[l].distance.key);
    }
}

/// Drawing the same markers in the same order gives the same frames.
proof fn lemma_histories_agree<S: BlockSource, M: Fn(Rgb, Rgb) -> Rgb>(
    source: &S,
    width: usize,
    mix: M,
    a: Seq<Seq<Rgb>>,
    a_markers: Seq<EntityMarker>,
    a_order: Seq<usize>,
    b: Seq<Seq<Rgb>>,
    b_markers: Seq<EntityMarker>,
    b_order: Seq<usize>,
    n: nat,
)
    requires
        mixes_the_same(mix),
        is_history(source, a, width, a_markers, a_order, mix),
        is_history(source, b, width, b_markers, b_order, mix),
        drawn_in(a_markers, a_order) == drawn_in(b_markers, b_order),
        a.len() == a_order.len() + 1,
        b.len() == b_order.len() + 1,
        a[0] == b[0],
        n < a.len(),
    ensures
        a[n as int] == b[n as int],
    decreases n,
{
    assert(drawn_in(a_markers, a_order).len() == a_order.len());
    assert(drawn_in(b_markers, b_order).len() == b_order.len());
    if n > 0 {
        let before = n - 1;
        lemma_histories_agree(
            source,
            width,
            mix,
            a,
            a_markers,
            a_order,
            b,
            b_markers,
            b_order,
            before as nat,
        );
        let marker = drawn_in(a_markers, a_order)[before];
        assert(marker == drawn_in(b_markers, b_order)[before]);
        assert(marker_handled(
            source,
            a[before],
            a[before + 1],
            width,
            a_markers[a_order[before] as int],
            mix,
        ));
        assert(marker_handled(
            source,
            b[before],
            b[before + 1],
            width,
            b_markers[b_order[before] as int],
            mix,
        ));
        assert(a[n as int] =~= b[n as int]);
    }
}

/// The order in which markers are listed does not matter: lists of the same
/// markers, of which no two are equally far, leave the same frame.
pub proof fn law_marker_order_does_not_matter<S: BlockSource, M: Fn(Rgb, Rgb) -> Rgb>(
    source: &S,
    before: Seq<Rgb>,
    a_after: Seq<Rgb>,
    b_after: Seq<Rgb>,
    width: usize,
    a_markers: Seq<EntityMarker>,
    b_markers: Seq<EntityMarker>,
    mix: M,
)
    requires
        a_markers.len() <= usize::MAX,
        a_markers.to_multiset() == b_markers.to_multiset(),
        all_apart(a_markers),
        mixes_the_same(mix),
        markers_drawn(source, before, a_after, width, a_markers, mix),
        markers_drawn(source, before, b_after, width, b_markers, mix),
    ensures
        a_after == b_after,
{
    let (a_order, a) = choose|order: Seq<usize>, history: Seq<Seq<Rgb>>|
        #![trigger is_history(source, history, width, a_markers, order, mix)]
        is_ordering(marker_distances(a_markers), |place: int| true, true, order) && is_history(
            source,
            history,
            width,
            a_markers,
            order,
            mix,
        ) && history.len() == order.len() + 1 && history[0] == before && history.last() == a_after;
    let (b_order, b) = choose|order: Seq<usize>, history: Seq<Seq<Rgb>>|
        #![trigger is_history(source, history, width, b_markers, order, mix)]
        is_ordering(marker_distances(b_markers), |place: int| true, true, order) && is_history(
            source,
            history,
            width,
            b_markers,
            order,
            mix,
        ) && history.len() == order.len() + 1 && history[0] == before && history.last() == b_after;
    lemma_apart_permuted(a_markers, b_markers);
    a_markers.to_multiset_ensures();
    b_markers.to_multiset_ensures();
    lemma_drawn_nearing(a_markers, a_order);
    lemma_drawn_nearing(b_markers, b_order);
    let a_drawn = drawn_in(a_markers, a_order);
    let b_drawn = drawn_in(b_markers, b_order);
    assert forall|marker: EntityMarker| #[trigger]
        a_drawn.contains(marker) <==> b_drawn.contains(marker) by {
        assert(a_markers.contains(marker) <==> b_markers.contains(marker));
        assert(b_markers.contains(marker) <==> b_drawn.contains(marker));
    }
    assert forall|marker: EntityMarker| #[trigger]
        b_drawn.contains(marker) <==> a_drawn.contains(marker) by {
        assert(a_drawn.contains(marker) <==> b_drawn.contains(marker));
    }
    lemma_nearing_agree(a_drawn, b_drawn, a_drawn.len());
    lemma_nearing_agree(b_drawn, a_drawn, b_drawn.len());
    assert(a_drawn =~= b_drawn);
    lemma_histories_agree(
        source,
        width,
        mix,
        a,
        a_markers,
        a_order,
        b,
        b_markers,
        b_order,
        a_order.len(),
    );
}

/// Nearer markers are drawn later, over those behind them.
pub proof fn law_nearer_markers_are_drawn_later(
    markers: Seq<EntityMarker>,
    order: Seq<usize>,
    earlier: int,
    later: int,
)
    requires
        is_ordering(marker_distances(markers), |place: int| true, true, order),
        0 <= earlier < later < order.len(),
    ensures
        drawn_in(markers, order)[earlier].distance.key >= drawn_in(
            markers,
            order,
        )[later].distance.key,
{
    let keys = marker_distances(markers);
    assert(order[earlier] < keys.len() && order[later] < keys.len());
    assert(precedes(keys, true, order[earlier] as int, order[later] as int));
}

/// Pixels are stored row by row from the top, each row from the left.
pub proof fn law_pixels_are_stored_by_rows(width: usize, x: int, y: int)
    ensures
        pixel_index(width, 0, 0) == 0,
        pixel_index(width, x + 1, y) == pixel_index(width, x, y) + 1,
        pixel_index(width, x, y + 1) == pixel_index(width, x, y) + width,
{
    assert((y + 1) * width == y * width + width) by (nonlinear_arith);
    assert(0 * width == 0) by (nonlinear_arith);
}

/// A frame of no columns or rows still has one column and one row of
/// characters, and a frame has no more pixels across than it has columns.
pub proof fn law_smallest_frame(columns: usize, rows: usize)
    ensures
        columns <= 1 ==> frame_width(columns) == 1,
        rows <= 1 ==> frame_height(rows) == 2,
        columns >= 1 ==> frame_width(columns) == columns,
        1 <= rows && 2 * rows > usize::MAX ==> frame_height(rows) == usize::MAX,
{
}

/// Markers are drawn two to twelve pixels high and one to six wide, as large
/// as they are where that is within these bounds.
pub proof fn law_marker_sizes(size: i64)
    ensures
        2 <= drawn_height(size) <= 12,
        2 <= size <= 12 ==> drawn_height(size) == size,
        size < 2 ==> drawn_height(size) == 2,
        size > 12 ==> drawn_height(size) == 12,
        1 <= drawn_width(size) <= 6,
        1 <= size <= 6 ==> drawn_width(size) == size,
        size < 1 ==> drawn_width(size) == 1,
        size > 6 ==> drawn_width(size) == 6,
{
}

/// A marker is filled: its head is the pixel above its body in the middle
/// column, and the body covers all pixels up to half its width to both sides,
/// on as many rows as the marker is high, half of them above its middle.
pub proof fn law_markers_are_filled(marker: EntityMarker, x: int, y: int)
    ensures
        ({
            let top = marker.center_y - drawn_height(marker.height) / 2;
            let bottom = top + drawn_height(marker.height) - 1;
            &&& top <= y <= bottom ==> covers(marker, marker.center_x as int, y)
            &&& top < y <= bottom && marker.center_x - drawn_width(marker.width) / 2 <= x
                <= marker.center_x + drawn_width(marker.width) / 2 ==> covers(marker, x, y)
            &&& y < top || y > bottom ==> !covers(marker, x, y)
            &&& x < marker.center_x - drawn_width(marker.width) / 2 || x > marker.center_x
                + drawn_width(marker.width) / 2 ==> !covers(marker, x, y)
            &&& y == top && x != marker.center_x ==> !covers(marker, x, y)
        }),
{
}

/// Whether a marker that can be seen covers the pixel at a place of a frame.
pub open spec fn shows_on<S: BlockSource>(
    source: &S,
    marker: EntityMarker,
    width: usize,
    i: int,
) -> bool {
    visible(source, marker) && covers(marker, i % (width as int), i / (width as int))
}

/// A pixel stays while markers are drawn that do not show on it.
proof fn lemma_pixel_stays<S: BlockSource, M: Fn(Rgb, Rgb) -> Rgb>(
    source: &S,
    history: Seq<Seq<Rgb>>,
    width: usize,
    markers: Seq<EntityMarker>,
    order: Seq<usize>,
    mix: M,
    i: int,
    from: int,
    to: int,
)
    requires
        is_history(source, history, width, markers, order, mix),
        history.len() == order.len() + 1,
        0 <= from <= to < history.len(),
        0 <= i < history[from].len(),
        forall|k: int|
            from <= k < to ==> !shows_on(source, markers[#[trigger] order[k] as int], width, i),
    ensures
        history[to].len() == history[from].len(),
        history[to][i] == history[from][i],
    decreases to - from,
{
    if from < to {
        lemma_pixel_stays(source, history, width, markers, order, mix, i, from, to - 1);
        let last = to - 1;
        assert(marker_handled(
            source,
            history[last],
            history[last + 1],
            width,
            markers[order[last] as int],
            mix,
        ));
        assert(!shows_on(source, markers[order[last] as int], width, i));
    }
}

/// Drawing markers keeps the size of a frame.
proof fn lemma_history_keeps_size<S: BlockSource, M: Fn(Rgb, Rgb) -> Rgb>(
    source: &S,
    history: Seq<Seq<Rgb>>,
    width: usize,
    markers: Seq<EntityMarker>,
    order: Seq<usize>,
    mix: M,
    n: int,
)
    requires
        is_history(source, history, width, markers, order, mix),
        history.len() == order.len() + 1,
        0 <= n < history.len(),
    ensures
        history[n].len() == history[0].len(),
    decreases n,
{
    if n > 0 {
        let last = n - 1;
        lemma_history_keeps_size(source, history, width, markers, order, mix, last);
        assert(marker_handled(
            source,
            history[last],
            history[last + 1],
            width,
            markers[order[last] as int],
            mix,
        ));
    }
}

/// The nearest marker that shows on a pixel lies on top: the pixel is its
/// colour, mixed last, over what was there. If it is the only one, that is the
/// pixel of the terrain.
pub proof fn law_nearest_marker_is_on_top<S: BlockSource, M: Fn(Rgb, Rgb) -> Rgb>(
    source: &S,
    before: Seq<Rgb>,
    after: Seq<Rgb>,
    width: usize,
    markers: Seq<EntityMarker>,
    mix: M,
    i: int,
    nearest: int,
)
    requires
        markers.len() <= usize::MAX,
        markers_drawn(source, before, after, width, markers, mix),
        0 <= i < before.len(),
        0 <= nearest < markers.len(),
        shows_on(source, markers[nearest], width, i),
        forall|k: int|
            0 <= k < markers.len() && k != nearest && shows_on(
                source,
                #[trigger] markers[k],
                width,
                i,
            ) ==> markers[k].distance.key > markers[nearest].distance.key,
    ensures
        after.len() == before.len(),
        exists|under: Rgb| #[trigger]
            call_ensures(mix, (under, category_color(markers[nearest].category)), after[i]),
        (forall|k: int|
            0 <= k < markers.len() && k != nearest ==> !shows_on(
                source,
                #[trigger] markers[k],
                width,
                i,
            )) ==> call_ensures(
            mix,
            (before[i], category_color(markers[nearest].category)),
            after[i],
        ),
{
    let (order, history) = choose|order: Seq<usize>, history: Seq<Seq<Rgb>>|
        #![trigger is_history(source, history, width, markers, order, mix)]
        is_ordering(marker_distances(markers), |place: int| true, true, order) && is_history(
            source,
            history,
            width,
            markers,
            order,
            mix,
        ) && history.len() == order.len() + 1 && history[0] == before && history.last() == after;
    law_drawing_order_is_complete(markers, order);
    assert(order.contains(nearest as usize));
    let at = choose|at: int| 0 <= at < order.len() && order[at] == nearest as usize;
    lemma_history_keeps_size(source, history, width, markers, order, mix, at);
    lemma_history_keeps_size(source, history, width, markers, order, mix, at + 1);
    assert(marker_handled(
        source,
        history[at],
        history[at + 1],
        width,
        markers[order[at] as int],
        mix,
    ));
    assert forall|k: int| at + 1 <= k < order.len() implies !shows_on(
        source,
        markers[#[trigger] order[k] as int],
        width,
        i,
    ) by {
        assert(order[at] < markers.len() && order[k] < markers.len());
        assert(order[k] != order[at]);
        assert(markers[order[at] as int].distance.key >= markers[order[k] as int].distance.key);
    }
    lemma_pixel_stays(
        source,
        history,
        width,
        markers,
        order,
        mix,
        i,
        at + 1,
        order.len() as int,
    );
    assert(call_ensures(
        mix,
        (history[at][i], category_color(markers[nearest].category)),
        after[i],
    ));
    if forall|k: int|
        0 <= k < markers.len() && k != nearest ==> !shows_on(
            source,
            #[trigger] markers[k],
            width,
            i,
        ) {
        assert forall|k: int| 0 <= k < at implies !shows_on(
            source,
            markers[#[trigger] order[k] as int],
            width,
            i,
        ) by {
            assert(order[k] < markers.len());
            assert(order[k] != order[at]);
        }
        lemma_pixel_stays(source, history, width, markers, order, mix, i, 0, at);
    }
}

/// A pixel on which no marker shows stays as it was.
pub proof fn law_other_pixels_stay<S: BlockSource, M: Fn(Rgb, Rgb) -> Rgb>(
    source: &S,
    before: Seq<Rgb>,
    after: Seq<Rgb>,
    width: usize,
    markers: Seq<EntityMarker>,
    mix: M,
    i: int,
)
    requires
        markers_drawn(source, before, after, width, markers, mix),
        0 <= i < before.len(),
        forall|k: int|
            0 <= k < markers.len() ==> !shows_on(source, #[trigger] markers[k], width, i),
    ensures
        after.len() == before.len(),
        after[i] == before[i],
{
    let (order, history) = choose|order: Seq<usize>, history: Seq<Seq<Rgb>>|
        #![trigger is_history(source, history, width, markers, order, mix)]
        is_ordering(marker_distances(markers), |place: int| true, true, order) && is_history(
            source,
            history,
            width,
            markers,
            order,
            mix,
        ) && history.len() == order.len() + 1 && history[0] == before && history.last() == after;
    law_drawing_order_is_complete(markers, order);
    assert forall|k: int| 0 <= k < order.len() implies !shows_on(
        source,
        markers[#[trigger] order[k] as int],
        width,
        i,
    ) by {
        assert(order[k] < markers.len());
    }
    lemma_pixel_stays(source, history, width, markers, order, mix, i, 0, order.len() as int);
}

/// The pixel in column `x` of row `y` is blended from what the ray of that
/// very pixel shows.
pub proof fn law_pixels_show_their_own_ray<
    S: BlockSource,
    R: Fn(usize, usize) -> Option<Ray>,
    B: Fn(usize, usize, PixelPlan) -> Rgb,
>(source: &S, rays: R, blend: B, width: usize, pixels: Seq<Rgb>, x: usize, y: usize)
    requires
        all_shaded(source, rays, blend, width, pixels),
        x < width,
        y * width + x < pixels.len(),
    ensures
        exists|ray: Option<Ray>, plan: PixelPlan| #[trigger]
            call_ensures(rays, (x, y), ray) && is_plan_of(source, ray, plan)
                && #[trigger] call_ensures(blend, (x, y, plan), pixels[y * width + x]),
{
    assert(0 <= y * width) by (nonlinear_arith);
    law_pixel_coordinates(width, x as int, y as int);
    let i = y * width + x;
    assert(shaded(
        source,
        rays,
        blend,
        (i % (width as int)) as usize,
        (i / (width as int)) as usize,
        pixels[i],
    ));
}

/// A tint is laid over every pixel, with its colour and its share; without one
/// the frame stays as it was.
pub proof fn law_tints_cover_the_frame<T: Fn(Rgb, Rgb, u8) -> Rgb>(
    before: Seq<Rgb>,
    after: Seq<Rgb>,
    color: Rgb,
    percent: u8,
    tint: T,
    i: int,
)
    requires
        0 <= i < before.len(),
    ensures
        tinted(before, after, Some((color, percent)), tint) ==> after.len() == before.len()
            && call_ensures(tint, (before[i], color, percent), after[i]),
        tinted(before, after, None, tint) ==> after == before,
{
}

/// A pixel on which no marker shows is blended from what its own ray shows, and
/// then tinted if the eye is in a fluid.
pub proof fn law_bare_pixels_show_the_terrain<
    S: BlockSource,
    R: Fn(usize, usize) -> Option<Ray>,
    B: Fn(usize, usize, PixelPlan) -> Rgb,
    M: Fn(Rgb, Rgb) -> Rgb,
    T: Fn(Rgb, Rgb, u8) -> Rgb,
>(
    source: &S,
    eye: BlockPos,
    rays: R,
    blend: B,
    markers: Seq<EntityMarker>,
    mix: M,
    tint: T,
    width: usize,
    pixels: Seq<Rgb>,
    x: usize,
    y: usize,
)
    requires
        is_rendered(source, eye, rays, blend, markers, mix, tint, width, pixels),
        x < width,
        y * width + x < pixels.len(),
        forall|k: int|
            0 <= k < markers.len() ==> !shows_on(
                source,
                #[trigger] markers[k],
                width,
                y * width + x,
            ),
    ensures
        exists|terrain: Rgb| #[trigger]
            shaded(source, rays, blend, x, y, terrain) && match overlay_in(source, eye) {
                Some((color, percent)) => call_ensures(
                    tint,
                    (terrain, color, percent),
                    pixels[y * width + x],
                ),
                None => pixels[y * width + x] == terrain,
            },
{
    let (terrain, scene) = choose|terrain: Seq<Rgb>, scene: Seq<Rgb>|
        #![trigger markers_drawn(source, terrain, scene, width, markers, mix)]
        terrain.len() == pixels.len() && all_shaded(source, rays, blend, width, terrain)
            && markers_drawn(source, terrain, scene, width, markers, mix) && tinted(
            scene,
            pixels,
            overlay_in(source, eye),
            tint,
        );
    assert(0 <= y * width) by (nonlinear_arith);
    let i = y * width + x;
    law_pixel_coordinates(width, x as int, y as int);
    law_other_pixels_stay(source, terrain, scene, width, markers, mix, i);
    assert(shaded(
        source,
        rays,
        blend,
        (i % (width as int)) as usize,
        (i / (width as int)) as usize,
        terrain[i],
    ));
    assert(shaded(source, rays, blend, x, y, terrain[i]));
    assert(scene[i] == terrain[i]);
}

/// A pixel on which markers show has the colour of the nearest one mixed in
/// last, and is then tinted if the eye is in a fluid.
pub proof fn law_marked_pixels_show_the_nearest_marker<
    S: BlockSource,
    R: Fn(usize, usize) -> Option<Ray>,
    B: Fn(usize, usize, PixelPlan) -> Rgb,
    M: Fn(Rgb, Rgb) -> Rgb,
    T: Fn(Rgb, Rgb, u8) -> Rgb,
>(
    source: &S,
    eye: BlockPos,
    rays: R,
    blend: B,
    markers: Seq<EntityMarker>,
    mix: M,
    tint: T,
    width: usize,
    pixels: Seq<Rgb>,
    i: int,
    nearest: int,
)
    requires
        markers.len() <= usize::MAX,
        is_rendered(source, eye, rays, blend, markers, mix, tint, width, pixels),
        0 <= i < pixels.len(),
        0 <= nearest < markers.len(),
        shows_on(source, markers[nearest], width, i),
        forall|k: int|
            0 <= k < markers.len() && k != nearest && shows_on(
                source,
                #[trigger] markers[k],
                width,
                i,
            ) ==> markers[k].distance.key > markers[nearest].distance.key,
    ensures
        exists|under: Rgb, marked: Rgb| #[trigger]
            call_ensures(mix, (under, category_color(markers[nearest].category)), marked)
                && match overlay_in(source, eye) {
                Some((color, percent)) => call_ensures(tint, (marked, color, percent), pixels[i]),
                None => pixels[i] == marked,
            },
{
    let (terrain, scene) = choose|terrain: Seq<Rgb>, scene: Seq<Rgb>|
        #![trigger markers_drawn(source, terrain, scene, width, markers, mix)]
        terrain.len() == pixels.len() && all_shaded(source, rays, blend, width, terrain)
            && markers_drawn(source, terrain, scene, width, markers, mix) && tinted(
            scene,
            pixels,
            overlay_in(source, eye),
            tint,
        );
    law_nearest_marker_is_on_top(source, terrain, scene, width, markers, mix, i, nearest);
    let under = choose|under: Rgb| #[trigger]
        call_ensures(mix, (under, category_color(markers[nearest].category)), scene[i]);
    assert(call_ensures(mix, (under, category_color(markers[nearest].category)), scene[i]));
}

/// A frame without entities is the frame with none of them listed.
pub proof fn law_empty_list_of_markers_changes_nothing<
    S: BlockSource,
    R: Fn(usize, usize) -> Option<Ray>,
    B: Fn(usize, usize, PixelPlan) -> Rgb,
    M: Fn(Rgb, Rgb) -> Rgb,
    T: Fn(Rgb, Rgb, u8) -> Rgb,
>(
    source: &S,
    eye: BlockPos,
    rays: R,
    blend: B,
    mix: M,
    tint: T,
    width: usize,
    pixels: Seq<Rgb>,
)
    ensures
        is_rendered(source, eye, rays, blend, Seq::empty(), mix, tint, width, pixels)
            <==> is_view(source, eye, rays, blend, tint, width, pixels),
{
    let none = Seq::<EntityMarker>::empty();
    if is_rendered(source, eye, rays, blend, none, mix, tint, width, pixels) {
        let (terrain, scene) = choose|terrain: Seq<Rgb>, scene: Seq<Rgb>|
            #![trigger markers_drawn(source, terrain, scene, width, none, mix)]
            terrain.len() == pixels.len() && all_shaded(source, rays, blend, width, terrain)
                && markers_drawn(source, terrain, scene, width, none, mix) && tinted(
                scene,
                pixels,
                overlay_in(source, eye),
                tint,
            );
        law_hidden_markers_change_nothing(source, terrain, scene, width, none, mix);
        assert(tinted(terrain, pixels, overlay_in(source, eye), tint));
    }
    if is_view(source, eye, rays, blend, tint, width, pixels) {
        let terrain = choose|terrain: Seq<Rgb>|
            #![trigger tinted(terrain, pixels, overlay_in(source, eye), tint)]
            terrain.len() == pixels.len() && all_shaded(source, rays, blend, width, terrain)
                && tinted(terrain, pixels, overlay_in(source, eye), tint);
        let order = Seq::<usize>::empty();
        let history = seq![terrain];
        assert(is_ordering(marker_distances(none), |place: int| true, true, order));
        assert(is_history(source, history, width, none, order, mix));
        assert(markers_drawn(source, terrain, terrain, width, none, mix));
    }
}

/// Frames that fit a terminal can be held.
pub proof fn law_terminal_frames_can_be_held(columns: usize, rows: usize)
    requires
        columns <= 10_000,
        rows <= 10_000,
    ensures
        frame_fits(columns, rows),
{
    assert(frame_width(columns) * frame_height(rows) <= 10_000 * 20_000) by (nonlinear_arith)
        requires
            1 <= frame_width(columns) <= 10_000,
            2 <= frame_height(rows) <= 20_000,
    ;
}

} // verus!
