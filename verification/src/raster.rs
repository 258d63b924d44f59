use vstd::prelude::*;

use crate::colour::Colour;
use crate::ramp::ColorRamp;
use crate::ramp::RampSegment;
use crate::ramp::build_ramp;
use crate::ramp::fills_view;
use crate::ramp::ramp_colour_at;
use crate::ramp::ramp_table;
use crate::ramp::valid_config;

verus! {

/// The magnitude of an elevation sample.
pub open spec fn abs_of(v: int) -> int {
    if v < 0 {
        -v
    } else {
        v
    }
}

/// The table index an elevation sample selects: fold the sample to its
/// magnitude, then clamp into the table's index range. Out-of-range samples
/// are absorbed, never wrapped and never a fault.
pub open spec fn sample_index(v: int) -> int {
    if abs_of(v) > 255 {
        255
    } else {
        abs_of(v)
    }
}

/// Law: the derived index stays inside the table whatever the sample is.
pub proof fn lemma_sample_index_in_range(v: int)
    ensures
        0 <= sample_index(v) <= 255,
{
}

/// Folds a sample, already truncated toward zero to an integer, to its table
/// index: absolute value first, then clamp to the top of the table.
pub fn clamp_index(v: i64) -> (i: usize)
    ensures
        i == sample_index(v as int),
{
    if v >= 256 {
        255
    } else if v >= 0 {
        v as usize
    } else if v <= -256 {
        255
    } else {
        (-v) as usize
    }
}

/// A width x height grid of elevation samples, row-major, one per pixel.
/// Each sample is the underlying scalar truncated toward zero; it is
/// nominally scaled into [0, 255] but nothing guarantees that.
pub struct ElevationField {
    pub width: usize,
    pub height: usize,
    pub samples: Vec<i64>,
}

impl ElevationField {
    pub open spec fn wf(self) -> bool {
        self.samples@.len() == self.width * self.height
    }

    pub fn new(width: usize, height: usize, samples: Vec<i64>) -> (field: ElevationField)
        requires
            samples@.len() == width * height,
        ensures
            field == (ElevationField { width, height, samples }),
            field.wf(),
    {
        ElevationField { width, height, samples }
    }

    /// The sample for the pixel at column `x` of row `y`.
    pub open spec fn sample_at(self, x: int, y: int) -> int
        recommends
            self.wf(),
            0 <= x < self.width,
            0 <= y < self.height,
    {
        self.samples@[y * self.width + x] as int
    }
}

/// A width x height pixel buffer, row-major, produced in one pass and then
/// handed to the image encoder unchanged.
pub struct TerrainImage {
    pub width: usize,
    pub height: usize,
    pub pixels: Vec<Colour>,
}

impl TerrainImage {
    pub open spec fn wf(self) -> bool {
        self.pixels@.len() == self.width * self.height
    }

    /// The pixel at column `x` of row `y`.
    pub open spec fn pixel_at(self, x: int, y: int) -> Colour
        recommends
            self.wf(),
            0 <= x < self.width,
            0 <= y < self.height,
    {
        self.pixels@[y * self.width + x]
    }
}

/// The whole rendered pixel buffer as a function of the ramp configuration
/// and the elevation samples.
pub open spec fn rendered_pixels(
    segments: Seq<RampSegment>,
    fills: Seq<Seq<Colour>>,
    field: Seq<i64>,
) -> Seq<Colour> {
    Seq::new(field.len(), |k: int| ramp_colour_at(segments, fills, sample_index(field[k] as int)))
}

/// Maps every elevation sample through the lookup table into a pixel buffer
/// of the field's dimensions: a hard per-sample lookup, no interpolation
/// between table entries, no other effect on either input.
pub fn rasterize(field: &ElevationField, ramp: &ColorRamp) -> (img: TerrainImage)
    requires
        field.wf(),
        ramp.wf(),
    ensures
        img.width == field.width,
        img.height == field.height,
        img.wf(),
        forall|k: int|
            0 <= k < field.samples@.len() ==> img.pixels@[k] == ramp.table@[sample_index(
                field.samples@[k] as int,
            )],
        forall|x: int, y: int|
            0 <= x < field.width && 0 <= y < field.height ==> img.pixel_at(x, y)
                == ramp.table@[sample_index(field.sample_at(x, y))],
{
    let mut pixels: Vec<Colour> = Vec::new();
    let mut k: usize = 0;
    while k < field.samples.len()
        invariant
            field.wf(),
            ramp.wf(),
            k <= field.samples@.len(),
            pixels@.len() == k,
            forall|j: int|
                0 <= j < k ==> pixels@[j] == ramp.table@[sample_index(field.samples@[j] as int)],
        decreases field.samples@.len() - k,
    {
        let idx = clamp_index(field.samples[k]);
        pixels.push(ramp.get(idx));
        k = k + 1;
    }
    let img = TerrainImage { width: field.width, height: field.height, pixels };
    proof {
        assert forall|x: int, y: int|
            0 <= x < field.width && 0 <= y < field.height implies img.pixel_at(x, y)
            == ramp.table@[sample_index(field.sample_at(x, y))] by {
            assert(0 <= y * field.width + x < field.width * field.height) by (nonlinear_arith)
                requires
                    0 <= x < field.width,
                    0 <= y < field.height,
            ;
        }
    }
    img
}

/// Runs the whole core once: builds the lookup table from the configuration,
/// then rasterizes the field through it. The pixel buffer is a function of
/// the configuration and the samples alone.
pub fn render_terrain(
    field: &ElevationField,
    segments: &Vec<RampSegment>,
    fills: &Vec<Vec<Colour>>,
) -> (img: TerrainImage)
    requires
        field.wf(),
        valid_config(segments@, fills_view(fills@)),
    ensures
        img.width == field.width,
        img.height == field.height,
        img.wf(),
        img.pixels@ == rendered_pixels(segments@, fills_view(fills@), field.samples@),
        forall|x: int, y: int|
            0 <= x < field.width && 0 <= y < field.height ==> img.pixel_at(x, y)
                == ramp_colour_at(segments@, fills_view(fills@), sample_index(
                field.sample_at(x, y),
            )),
{
    let ramp = build_ramp(segments, fills);
    let img = rasterize(field, &ramp);
    proof {
        assert(ramp.table@ == ramp_table(segments@, fills_view(fills@)));
        assert forall|k: int| 0 <= k < field.samples@.len() implies img.pixels@[k]
            == rendered_pixels(segments@, fills_view(fills@), field.samples@)[k] by {
            lemma_sample_index_in_range(field.samples@[k] as int);
        }
        assert(img.pixels@ =~= rendered_pixels(segments@, fills_view(fills@), field.samples@));
        assert forall|x: int, y: int|
            0 <= x < field.width && 0 <= y < field.height implies img.pixel_at(x, y)
            == ramp_colour_at(segments@, fills_view(fills@), sample_index(
            field.sample_at(x, y),
        )) by {
            lemma_sample_index_in_range(field.sample_at(x, y));
        }
    }
    img
}

/// Law: rendering is deterministic. Any two pixel buffers that the rendering
/// contract admits for one configuration and one field are equal; with the
/// sampler's own contract that a fixed seed reproduces the field bit for
/// bit, two runs of the full pipeline from one seed produce identical
/// buffers.
pub proof fn lemma_render_deterministic(
    segments: Seq<RampSegment>,
    fills: Seq<Seq<Colour>>,
    field: Seq<i64>,
    px1: Seq<Colour>,
    px2: Seq<Colour>,
)
    requires
        px1 == rendered_pixels(segments, fills, field),
        px2 == rendered_pixels(segments, fills, field),
    ensures
        px1 == px2,
{
}

} // verus!
