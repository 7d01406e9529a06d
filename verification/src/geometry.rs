//! Monitor descriptors and the canvas geometry derived from them.

use vstd::prelude::*;

verus! {

/// One connected output: its pixel size and its offset inside the shared
/// virtual canvas.
pub struct Monitor {
    pub name: String,
    pub width: u32,
    pub height: u32,
    pub x: i32,
    pub y: i32,
}

impl Monitor {
    /// A monitor lies at a non-negative offset inside the virtual canvas,
    /// covers a non-degenerate rectangle, and its far edges still fit in
    /// `u32`, so canvas arithmetic cannot overflow.
    pub open spec fn wf(self) -> bool {
        &&& 0 <= self.x
        &&& 0 <= self.y
        &&& 1 <= self.width
        &&& 1 <= self.height
        &&& self.x + self.width <= u32::MAX
        &&& self.y + self.height <= u32::MAX
    }
}

/// Width of the smallest canvas that contains every monitor:
/// the maximum over all monitors of `x + width` (0 when there are none).
pub open spec fn canvas_width(ms: Seq<Monitor>) -> int
    decreases ms.len(),
{
    if ms.len() == 0 {
        0
    } else {
        let rest = canvas_width(ms.drop_last());
        let edge = ms.last().x + ms.last().width;
        if edge > rest {
            edge
        } else {
            rest
        }
    }
}

/// Height of the smallest canvas that contains every monitor:
/// the maximum over all monitors of `y + height` (0 when there are none).
pub open spec fn canvas_height(ms: Seq<Monitor>) -> int
    decreases ms.len(),
{
    if ms.len() == 0 {
        0
    } else {
        let rest = canvas_height(ms.drop_last());
        let edge = ms.last().y + ms.last().height;
        if edge > rest {
            edge
        } else {
            rest
        }
    }
}

/// Every monitor's rectangle fits inside the canvas: for each monitor,
/// `x + width <= canvas_width` and `y + height <= canvas_height`.
pub proof fn lemma_canvas_bounds(ms: Seq<Monitor>)
    ensures
        forall|i: int| 0 <= i < ms.len() ==> #[trigger] ms[i].x + ms[i].width <= canvas_width(ms),
        forall|i: int| 0 <= i < ms.len() ==> #[trigger] ms[i].y + ms[i].height <= canvas_height(
            ms,
        ),
    decreases ms.len(),
{
    if ms.len() > 0 {
        lemma_canvas_bounds(ms.drop_last());
        assert(forall|i: int|
            0 <= i < ms.len() - 1 ==> ms.drop_last()[i] == ms[i]);
    }
}

/// The canvas is tight: some monitor reaches its right edge and some monitor
/// reaches its bottom edge (the maxima are attained).
pub proof fn lemma_canvas_attained(ms: Seq<Monitor>)
    requires
        ms.len() > 0,
        forall|i: int| 0 <= i < ms.len() ==> #[trigger] ms[i].wf(),
    ensures
        exists|i: int| 0 <= i < ms.len() && #[trigger] (ms[i].x + ms[i].width) == canvas_width(ms),
        exists|i: int|
            0 <= i < ms.len() && #[trigger] (ms[i].y + ms[i].height) == canvas_height(ms),
    decreases ms.len(),
{
    if ms.len() == 1 {
        assert(ms[0].wf());
        assert(ms.drop_last().len() == 0);
        assert(canvas_width(ms.drop_last()) == 0);
        assert(canvas_height(ms.drop_last()) == 0);
        assert(ms.last() == ms[0]);
        assert(ms[0].x + ms[0].width == canvas_width(ms));
        assert(ms[0].y + ms[0].height == canvas_height(ms));
    } else {
        let rest = ms.drop_last();
        assert(forall|i: int| 0 <= i < rest.len() ==> rest[i] == ms[i]);
        lemma_canvas_attained(rest);
        if ms.last().x + ms.last().width > canvas_width(rest) {
            assert(ms[ms.len() - 1].x + ms[ms.len() - 1].width == canvas_width(ms));
        } else {
            let i = choose|i: int|
                0 <= i < rest.len() && #[trigger] (rest[i].x + rest[i].width) == canvas_width(rest);
            assert(ms[i].x + ms[i].width == canvas_width(ms));
        }
        if ms.last().y + ms.last().height > canvas_height(rest) {
            assert(ms[ms.len() - 1].y + ms[ms.len() - 1].height == canvas_height(ms));
        } else {
            let i = choose|i: int|
                0 <= i < rest.len() && #[trigger] (rest[i].y + rest[i].height) == canvas_height(
                    rest,
                );
            assert(ms[i].y + ms[i].height == canvas_height(ms));
        }
    }
}

/// Computes the canvas dimensions: the componentwise maximum of every
/// monitor's far edge.
pub fn canvas_size(monitors: &Vec<Monitor>) -> (r: (u32, u32))
    requires
        forall|i: int| 0 <= i < monitors@.len() ==> #[trigger] monitors@[i].wf(),
    ensures
        r.0 == canvas_width(monitors@),
        r.1 == canvas_height(monitors@),
{
    let mut overall_width: u32 = 0;
    let mut overall_height: u32 = 0;
    let mut i: usize = 0;
    while i < monitors.len()
        invariant
            0 <= i <= monitors@.len(),
            forall|j: int| 0 <= j < monitors@.len() ==> #[trigger] monitors@[j].wf(),
            overall_width == canvas_width(monitors@.take(i as int)),
            overall_height == canvas_height(monitors@.take(i as int)),
        decreases monitors@.len() - i,
    {
        let m = &monitors[i];
        proof {
            assert(monitors@[i as int].wf());
        }
        let edge_x: u32 = m.width + (m.x as u32);
        let edge_y: u32 = m.height + (m.y as u32);
        if edge_x > overall_width {
            overall_width = edge_x;
        }
        if edge_y > overall_height {
            overall_height = edge_y;
        }
        proof {
            assert(monitors@.take(i + 1).drop_last() =~= monitors@.take(i as int));
            assert(monitors@.take(i + 1).last() == monitors@[i as int]);
        }
        i = i + 1;
    }
    proof {
        assert(monitors@.take(monitors@.len() as int) =~= monitors@);
    }
    (overall_width, overall_height)
}

/// Whether the source image must be scaled to fill the canvas: scaling
/// happens unless the caller opted out, and always when the source is
/// smaller than the canvas in either dimension.
pub open spec fn scale_needed(
    img_w: int,
    img_h: int,
    canvas_w: int,
    canvas_h: int,
    no_downscale: bool,
) -> bool {
    !no_downscale || img_w < canvas_w || img_h < canvas_h
}

/// Decides the scale-or-not question for a source image against a canvas.
pub fn needs_scale(img_w: u32, img_h: u32, canvas_w: u32, canvas_h: u32, no_downscale: bool) -> (r:
    bool)
    ensures
        r == scale_needed(img_w as int, img_h as int, canvas_w as int, canvas_h as int,
        no_downscale),
{
    !no_downscale || img_w < canvas_w || img_h < canvas_h
}

} // verus!
