use vstd::prelude::*;

use crate::colour::Colour;

verus! {

/// A declared interpolation rule: a linear path from `colour_a` at table
/// index `start` to `colour_b` at table index `end`, both ends inclusive.
#[derive(Copy, Clone, Debug, PartialEq, Eq, Structural)]
pub struct RampSegment {
    pub colour_a: Colour,
    pub colour_b: Colour,
    pub start: usize,
    pub end: usize,
}

impl RampSegment {
    pub open spec fn wf(self) -> bool {
        self.start <= self.end && self.end <= 255
    }

    /// The table indices the segment claims.
    pub open spec fn covers(self, i: int) -> bool {
        self.start <= i <= self.end
    }

    /// How many table entries the segment claims, both ends inclusive.
    pub open spec fn span(self) -> nat {
        (self.end - self.start + 1) as nat
    }

    pub fn new(colour_a: Colour, colour_b: Colour, start: usize, end: usize) -> (seg: RampSegment)
        requires
            start <= end,
            end <= 255,
        ensures
            seg == (RampSegment { colour_a, colour_b, start, end }),
    {
        RampSegment { colour_a, colour_b, start, end }
    }
}

/// The colour a single segment puts at a covered index `i`, given the
/// interpolated interior `fill` supplied for it: the declared endpoint
/// colours exactly at `start` and `end` (boundary exactness; `colour_a` wins
/// on a one-entry segment), the fill entry everywhere strictly between.
pub open spec fn seg_colour_at(seg: RampSegment, fill: Seq<Colour>, i: int) -> Colour
    recommends
        seg.covers(i),
        fill.len() == seg.span(),
{
    if i == seg.start {
        seg.colour_a
    } else if i == seg.end {
        seg.colour_b
    } else {
        fill[i - seg.start]
    }
}

/// The views of the per-segment interpolation fills.
pub open spec fn fills_view(fills: Seq<Vec<Colour>>) -> Seq<Seq<Colour>> {
    fills.map_values(|f: Vec<Colour>| f@)
}

/// A segment list together with one interpolation fill per segment, each
/// fill as long as its segment's span, every segment inside the table.
pub open spec fn valid_config(segments: Seq<RampSegment>, fills: Seq<Seq<Colour>>) -> bool {
    &&& segments.len() == fills.len()
    &&& forall|k: int| 0 <= k < segments.len() ==> (#[trigger] segments[k]).wf()
    &&& forall|k: int|
        0 <= k < segments.len() ==> (#[trigger] fills[k]).len() == segments[k].span()
}

/// The table entry at index `i` after applying every segment in declaration
/// order: the latest segment that covers `i` owns the entry; an index no
/// segment covers keeps the default-initialised black.
pub open spec fn ramp_colour_at(segments: Seq<RampSegment>, fills: Seq<Seq<Colour>>, i: int) -> Colour
    recommends
        valid_config(segments, fills),
    decreases segments.len(),
{
    if segments.len() == 0 {
        Colour::black_spec()
    } else if segments.last().covers(i) {
        seg_colour_at(segments.last(), fills.last(), i)
    } else {
        ramp_colour_at(segments.drop_last(), fills.drop_last(), i)
    }
}

/// The whole 256-entry table, as a function of the configuration.
pub open spec fn ramp_table(segments: Seq<RampSegment>, fills: Seq<Seq<Colour>>) -> Seq<Colour> {
    Seq::new(256, |i: int| ramp_colour_at(segments, fills, i))
}

/// The fixed-size elevation-to-colour lookup table, built once and then
/// read-only.
pub struct ColorRamp {
    pub table: Vec<Colour>,
}

impl ColorRamp {
    pub open spec fn wf(self) -> bool {
        self.table@.len() == 256
    }

    pub fn get(&self, i: usize) -> (c: Colour)
        requires
            self.wf(),
            i < 256,
        ensures
            c == self.table@[i as int],
    {
        self.table[i]
    }
}

/// Builds the 256-entry lookup table from the ordered segment list and the
/// interpolated interior colours supplied for each segment. Segments are
/// applied in declaration order; a later segment silently overwrites an
/// earlier one on every contended index. Each segment's boundary entries are
/// written as the declared endpoint colours exactly. Indices no segment
/// covers keep the default-initialised black.
pub fn build_ramp(segments: &Vec<RampSegment>, fills: &Vec<Vec<Colour>>) -> (ramp: ColorRamp)
    requires
        valid_config(segments@, fills_view(fills@)),
    ensures
        ramp.wf(),
        ramp.table@ == ramp_table(segments@, fills_view(fills@)),
{
    let ghost gfills = fills_view(fills@);
    let mut table: Vec<Colour> = Vec::new();
    while table.len() < 256
        invariant
            table@.len() <= 256,
            forall|i: int| 0 <= i < table@.len() ==> table@[i] == Colour::black_spec(),
        decreases 256 - table@.len(),
    {
        table.push(Colour::black());
    }
    proof {
        assert forall|i: int| 0 <= i < 256 implies table@[i] == ramp_colour_at(
            segments@.subrange(0, 0),
            gfills.subrange(0, 0),
            i,
        ) by {
            assert(segments@.subrange(0, 0).len() == 0);
        }
    }
    let mut k: usize = 0;
    while k < segments.len()
        invariant
            valid_config(segments@, gfills),
            gfills == fills_view(fills@),
            k <= segments@.len(),
            table@.len() == 256,
            forall|i: int|
                0 <= i < 256 ==> table@[i] == ramp_colour_at(
                    segments@.subrange(0, k as int),
                    gfills.subrange(0, k as int),
                    i,
                ),
        decreases segments@.len() - k,
    {
        let ghost pre = segments@.subrange(0, k as int);
        let ghost fpre = gfills.subrange(0, k as int);
        let seg = segments[k];
        let fill = &fills[k];
        assert(fill@ == gfills[k as int]);
        assert(seg.wf());
        assert(fill@.len() == seg.span());
        let mut idx: usize = seg.start;
        while idx <= seg.end
            invariant
                seg.wf(),
                fill@.len() == seg.span(),
                seg.start <= idx <= seg.end + 1,
                table@.len() == 256,
                forall|i: int|
                    0 <= i < 256 && !(seg.start <= i < idx) ==> table@[i] == ramp_colour_at(
                        pre,
                        fpre,
                        i,
                    ),
                forall|i: int|
                    seg.start <= i < idx ==> table@[i] == seg_colour_at(seg, fill@, i),
            decreases seg.end + 1 - idx,
        {
            let c = if idx == seg.start {
                seg.colour_a
            } else if idx == seg.end {
                seg.colour_b
            } else {
                fill[idx - seg.start]
            };
            table.set(idx, c);
            idx = idx + 1;
        }
        proof {
            let post = segments@.subrange(0, k as int + 1);
            let fpost = gfills.subrange(0, k as int + 1);
            assert(post.drop_last() =~= pre);
            assert(fpost.drop_last() =~= fpre);
            assert(post.last() == seg);
            assert(fpost.last() == fill@);
            assert forall|i: int| 0 <= i < 256 implies table@[i] == ramp_colour_at(
                post,
                fpost,
                i,
            ) by {
                if seg.covers(i) {
                    assert(table@[i] == seg_colour_at(seg, fill@, i));
                } else {
                    assert(table@[i] == ramp_colour_at(pre, fpre, i));
                }
            }
        }
        k = k + 1;
    }
    proof {
        assert(segments@.subrange(0, segments@.len() as int) =~= segments@);
        assert(gfills.subrange(0, gfills.len() as int) =~= gfills);
        assert(table@ =~= ramp_table(segments@, gfills));
    }
    ColorRamp { table }
}

/// The default palette tuning: a flat deep-ocean band, an ocean-to-shallow
/// transition, sand, beach rock, grass, forest, bare mountain and snow, as an
/// ordered segment list over the whole table. It is a replaceable
/// configuration, not a structural constant: `build_ramp` takes any segment
/// list.
pub open spec fn default_segments_spec() -> Seq<RampSegment> {
    seq![
        // Ocean
        RampSegment {
            colour_a: Colour { r: 5, g: 35, b: 84 },
            colour_b: Colour { r: 5, g: 35, b: 84 },
            start: 0,
            end: 68,
        },
        // Ocean shallowing toward the shore
        RampSegment {
            colour_a: Colour { r: 5, g: 35, b: 84 },
            colour_b: Colour { r: 24, g: 108, b: 244 },
            start: 69,
            end: 138,
        },
        // Initial sand
        RampSegment {
            colour_a: Colour { r: 24, g: 108, b: 244 },
            colour_b: Colour { r: 244, g: 252, b: 138 },
            start: 139,
            end: 140,
        },
        // Later sand
        RampSegment {
            colour_a: Colour { r: 244, g: 252, b: 138 },
            colour_b: Colour { r: 251, g: 255, b: 186 },
            start: 141,
            end: 144,
        },
        // Beach rocks
        RampSegment {
            colour_a: Colour { r: 251, g: 255, b: 186 },
            colour_b: Colour { r: 165, g: 165, b: 165 },
            start: 145,
            end: 147,
        },
        // Grass
        RampSegment {
            colour_a: Colour { r: 165, g: 165, b: 165 },
            colour_b: Colour { r: 74, g: 224, b: 106 },
            start: 148,
            end: 149,
        },
        // More grass
        RampSegment {
            colour_a: Colour { r: 74, g: 224, b: 106 },
            colour_b: Colour { r: 60, g: 201, b: 91 },
            start: 150,
            end: 166,
        },
        // Trees
        RampSegment {
            colour_a: Colour { r: 60, g: 201, b: 91 },
            colour_b: Colour { r: 104, g: 154, b: 113 },
            start: 167,
            end: 179,
        },
        // More trees
        RampSegment {
            colour_a: Colour { r: 104, g: 154, b: 113 },
            colour_b: Colour { r: 7, g: 145, b: 37 },
            start: 180,
            end: 199,
        },
        // Light trees
        RampSegment {
            colour_a: Colour { r: 7, g: 145, b: 37 },
            colour_b: Colour { r: 104, g: 154, b: 113 },
            start: 200,
            end: 210,
        },
        // Bare mountain
        RampSegment {
            colour_a: Colour { r: 104, g: 154, b: 113 },
            colour_b: Colour { r: 191, g: 191, b: 191 },
            start: 211,
            end: 224,
        },
        // Snow
        RampSegment {
            colour_a: Colour { r: 191, g: 191, b: 191 },
            colour_b: Colour { r: 242, g: 242, b: 242 },
            start: 225,
            end: 242,
        },
        // More snow
        RampSegment {
            colour_a: Colour { r: 242, g: 242, b: 242 },
            colour_b: Colour { r: 242, g: 242, b: 242 },
            start: 243,
            end: 255,
        },
    ]
}

/// The default palette as a value.
pub fn default_segments() -> (segs: Vec<RampSegment>)
    ensures
        segs@ == default_segments_spec(),
{
    let mut v: Vec<RampSegment> = Vec::new();
    v.push(RampSegment::new(Colour::new(5, 35, 84), Colour::new(5, 35, 84), 0, 68));
    v.push(RampSegment::new(Colour::new(5, 35, 84), Colour::new(24, 108, 244), 69, 138));
    v.push(RampSegment::new(Colour::new(24, 108, 244), Colour::new(244, 252, 138), 139, 140));
    v.push(RampSegment::new(Colour::new(244, 252, 138), Colour::new(251, 255, 186), 141, 144));
    v.push(RampSegment::new(Colour::new(251, 255, 186), Colour::new(165, 165, 165), 145, 147));
    v.push(RampSegment::new(Colour::new(165, 165, 165), Colour::new(74, 224, 106), 148, 149));
    v.push(RampSegment::new(Colour::new(74, 224, 106), Colour::new(60, 201, 91), 150, 166));
    v.push(RampSegment::new(Colour::new(60, 201, 91), Colour::new(104, 154, 113), 167, 179));
    v.push(RampSegment::new(Colour::new(104, 154, 113), Colour::new(7, 145, 37), 180, 199));
    v.push(RampSegment::new(Colour::new(7, 145, 37), Colour::new(104, 154, 113), 200, 210));
    v.push(RampSegment::new(Colour::new(104, 154, 113), Colour::new(191, 191, 191), 211, 224));
    v.push(RampSegment::new(Colour::new(191, 191, 191), Colour::new(242, 242, 242), 225, 242));
    v.push(RampSegment::new(Colour::new(242, 242, 242), Colour::new(242, 242, 242), 243, 255));
    proof {
        assert(v@ =~= default_segments_spec());
    }
    v
}

/// Law: every segment of the default palette is inside the table.
pub proof fn lemma_default_segments_wf()
    ensures
        forall|k: int|
            0 <= k < default_segments_spec().len() ==> (#[trigger] default_segments_spec()[k]).wf(),
{
    let s = default_segments_spec();
    assert forall|k: int| 0 <= k < s.len() implies (#[trigger] s[k]).wf() by {
        if k == 0 {
            assert(s[0].wf());
        } else if k == 1 {
            assert(s[1].wf());
        } else if k == 2 {
            assert(s[2].wf());
        } else if k == 3 {
            assert(s[3].wf());
        } else if k == 4 {
            assert(s[4].wf());
        } else if k == 5 {
            assert(s[5].wf());
        } else if k == 6 {
            assert(s[6].wf());
        } else if k == 7 {
            assert(s[7].wf());
        } else if k == 8 {
            assert(s[8].wf());
        } else if k == 9 {
            assert(s[9].wf());
        } else if k == 10 {
            assert(s[10].wf());
        } else if k == 11 {
            assert(s[11].wf());
        } else {
            assert(s[12].wf());
        }
    }
}

/// Law: the default palette covers the whole table, so no
/// default-initialised black entry survives construction.
pub proof fn lemma_default_covers(i: int)
    requires
        0 <= i < 256,
    ensures
        exists|k: int|
            0 <= k < default_segments_spec().len()
                && (#[trigger] default_segments_spec()[k]).covers(i),
{
    let s = default_segments_spec();
    if i <= 68 {
        assert(s[0].covers(i));
    } else if i <= 138 {
        assert(s[1].covers(i));
    } else if i <= 140 {
        assert(s[2].covers(i));
    } else if i <= 144 {
        assert(s[3].covers(i));
    } else if i <= 147 {
        assert(s[4].covers(i));
    } else if i <= 149 {
        assert(s[5].covers(i));
    } else if i <= 166 {
        assert(s[6].covers(i));
    } else if i <= 179 {
        assert(s[7].covers(i));
    } else if i <= 199 {
        assert(s[8].covers(i));
    } else if i <= 210 {
        assert(s[9].covers(i));
    } else if i <= 224 {
        assert(s[10].covers(i));
    } else if i <= 242 {
        assert(s[11].covers(i));
    } else {
        assert(s[12].covers(i));
    }
}

/// Law: on every contended index the latest covering segment wins. If
/// segment `k` covers `i` and no later segment does, the table entry at `i`
/// is exactly what segment `k` puts there.
pub proof fn lemma_last_writer_wins(
    segments: Seq<RampSegment>,
    fills: Seq<Seq<Colour>>,
    i: int,
    k: int,
)
    requires
        valid_config(segments, fills),
        0 <= k < segments.len(),
        segments[k].covers(i),
        forall|j: int| k < j < segments.len() ==> !(#[trigger] segments[j]).covers(i),
    ensures
        ramp_colour_at(segments, fills, i) == seg_colour_at(segments[k], fills[k], i),
    decreases segments.len(),
{
    if k == segments.len() - 1 {
        assert(segments.last().covers(i));
    } else {
        assert(!segments.last().covers(i));
        let dsegs = segments.drop_last();
        let dfills = fills.drop_last();
        assert forall|j: int| 0 <= j < dsegs.len() implies (#[trigger] dsegs[j]).wf() by {
            assert(dsegs[j] == segments[j]);
        }
        assert forall|j: int| 0 <= j < dsegs.len() implies (#[trigger] dfills[j]).len()
            == dsegs[j].span() by {
            assert(dfills[j] == fills[j]);
        }
        lemma_last_writer_wins(dsegs, dfills, i, k);
    }
}

/// Law: an index no segment covers keeps the default-initialised black.
pub proof fn lemma_uncovered_black(segments: Seq<RampSegment>, fills: Seq<Seq<Colour>>, i: int)
    requires
        forall|k: int| 0 <= k < segments.len() ==> !(#[trigger] segments[k]).covers(i),
    ensures
        ramp_colour_at(segments, fills, i) == Colour::black_spec(),
    decreases segments.len(),
{
    if segments.len() > 0 {
        lemma_uncovered_black(segments.drop_last(), fills.drop_last(), i);
    }
}

/// Law (boundary exactness): the entry at a segment's start index is exactly
/// its declared first colour, provided no later segment claims that index.
pub proof fn lemma_boundary_start(
    segments: Seq<RampSegment>,
    fills: Seq<Seq<Colour>>,
    k: int,
)
    requires
        valid_config(segments, fills),
        0 <= k < segments.len(),
        forall|j: int|
            k < j < segments.len() ==> !(#[trigger] segments[j]).covers(segments[k].start as int),
    ensures
        ramp_colour_at(segments, fills, segments[k].start as int) == segments[k].colour_a,
{
    lemma_last_writer_wins(segments, fills, segments[k].start as int, k);
}

/// Law (boundary exactness): the entry at a segment's end index is exactly
/// its declared second colour, provided no later segment claims that index.
/// On a one-entry segment the start rule wins, so the segment must either
/// span more than one entry or declare equal endpoint colours.
pub proof fn lemma_boundary_end(
    segments: Seq<RampSegment>,
    fills: Seq<Seq<Colour>>,
    k: int,
)
    requires
        valid_config(segments, fills),
        0 <= k < segments.len(),
        segments[k].start < segments[k].end || segments[k].colour_a == segments[k].colour_b,
        forall|j: int|
            k < j < segments.len() ==> !(#[trigger] segments[j]).covers(segments[k].end as int),
    ensures
        ramp_colour_at(segments, fills, segments[k].end as int) == segments[k].colour_b,
{
    lemma_last_writer_wins(segments, fills, segments[k].end as int, k);
}

} // verus!
