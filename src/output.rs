use vstd::prelude::*;

verus! {

/// The depth that a cleared depth buffer holds: nothing drawn yet.
pub const FAR_DEPTH: u32 = 0xffff_ffff;

/// What one chunk contributes to one pixel: its nearest voxel's depth and color.
#[derive(Clone, Copy, Debug, PartialEq, Eq, Structural)]
pub struct Fragment {
    pub pixel: usize,
    pub depth: u32,
    pub color: u32,
}

/// The dimensions of the output image.
#[derive(Clone, Copy, Debug, PartialEq, Eq, Structural)]
pub struct Size {
    pub width: u32,
    pub height: u32,
}

/// The abstract state of the output buffers: one color and one depth per pixel, row by row.
pub struct OutputModel {
    pub width: nat,
    pub height: nat,
    pub color: Seq<u32>,
    pub depth: Seq<u32>,
}

impl OutputModel {
    pub open spec fn wf(self) -> bool {
        &&& self.color.len() == self.width * self.height
        &&& self.depth.len() == self.width * self.height
    }
}

/// Freshly cleared buffers of the given dimensions: black, and at the far depth everywhere.
pub open spec fn cleared(width: nat, height: nat) -> OutputModel {
    OutputModel {
        width,
        height,
        color: Seq::new(width * height, |i: int| 0u32),
        depth: Seq::new(width * height, |i: int| FAR_DEPTH),
    }
}

/// The buffers after a resize: new cleared buffers, or the old ones where a dimension is 0.
pub open spec fn resized(m: OutputModel, width: nat, height: nat) -> OutputModel {
    if width == 0 || height == 0 {
        m
    } else {
        cleared(width, height)
    }
}

/// The depth test: a fragment replaces its pixel only where it is strictly nearer than what
/// the pixel holds; a fragment outside the image is dropped.
pub open spec fn apply_fragment(m: OutputModel, f: Fragment) -> OutputModel {
    if f.pixel < m.depth.len() && f.depth < m.depth[f.pixel as int] {
        OutputModel {
            color: m.color.update(f.pixel as int, f.color),
            depth: m.depth.update(f.pixel as int, f.depth),
            ..m
        }
    } else {
        m
    }
}

/// The buffers after a sequence of fragments, in order.
pub open spec fn apply_all(m: OutputModel, s: Seq<Fragment>) -> OutputModel
    decreases s.len(),
{
    if s.len() == 0 {
        m
    } else {
        apply_fragment(apply_all(m, s.drop_last()), s.last())
    }
}

/// Two fragments whose order the depth test cannot tell: unless they hit the same pixel at the
/// same depth with different colors, either order gives the same buffers.
pub open spec fn compatible(f: Fragment, g: Fragment) -> bool {
    !(f.pixel == g.pixel && f.depth == g.depth && f.color != g.color)
}

proof fn lemma_apply_keeps_wf(m: OutputModel, s: Seq<Fragment>)
    requires
        m.wf(),
    ensures
        apply_all(m, s).wf(),
        apply_all(m, s).width == m.width,
        apply_all(m, s).height == m.height,
    decreases s.len(),
{
    if s.len() > 0 {
        lemma_apply_keeps_wf(m, s.drop_last());
    }
}

proof fn lemma_fragments_commute(m: OutputModel, f: Fragment, g: Fragment)
    requires
        m.wf(),
        compatible(f, g),
    ensures
        apply_fragment(apply_fragment(m, f), g) == apply_fragment(apply_fragment(m, g), f),
{
    let fg = apply_fragment(apply_fragment(m, f), g);
    let gf = apply_fragment(apply_fragment(m, g), f);
    assert(fg.color =~= gf.color);
    assert(fg.depth =~= gf.depth);
}

proof fn lemma_fragment_passes(m: OutputModel, s: Seq<Fragment>, g: Fragment)
    requires
        m.wf(),
        forall|i: int| 0 <= i < s.len() ==> compatible(#[trigger] s[i], g),
    ensures
        apply_fragment(apply_all(m, s), g) == apply_all(apply_fragment(m, g), s),
    decreases s.len(),
{
    if s.len() > 0 {
        let p = s.drop_last();
        assert forall|i: int| 0 <= i < p.len() implies compatible(#[trigger] p[i], g) by {
            assert(p[i] == s[i]);
        }
        lemma_fragment_passes(m, p, g);
        lemma_apply_keeps_wf(m, p);
        lemma_fragments_commute(apply_all(m, p), s.last(), g);
    }
}

/// Depth-test order independence: dispatching two chunks' fragments in either order gives
/// identical color and depth buffers, provided no two of their fragments hit one pixel at one
/// depth with different colors.
pub proof fn lemma_dispatch_order_independent(m: OutputModel, a: Seq<Fragment>, b: Seq<Fragment>)
    requires
        m.wf(),
        forall|i: int, j: int| 0 <= i < a.len() && 0 <= j < b.len() ==> compatible(#[trigger] a[i], #[trigger] b[j]),
    ensures
        apply_all(apply_all(m, a), b) == apply_all(apply_all(m, b), a),
    decreases b.len(),
{
    if b.len() > 0 {
        let p = b.drop_last();
        let g = b.last();
        assert forall|i: int, j: int| 0 <= i < a.len() && 0 <= j < p.len() implies compatible(#[trigger] a[i], #[trigger] p[j]) by {
            assert(p[j] == b[j]);
        }
        lemma_dispatch_order_independent(m, a, p);
        lemma_apply_keeps_wf(m, p);
        assert forall|i: int| 0 <= i < a.len() implies compatible(#[trigger] a[i], g) by {
            assert(g == b[b.len() - 1]);
        }
        lemma_fragment_passes(apply_all(m, p), a, g);
    }
}

/// Resizing to one size, then another, then back gives buffers of the final size that hold
/// nothing of the intermediate ones: exactly freshly cleared buffers.
pub proof fn lemma_resize_round_trip(m: OutputModel, w1: nat, h1: nat, w2: nat, h2: nat)
    requires
        w1 > 0,
        h1 > 0,
    ensures
        resized(resized(resized(m, w1, h1), w2, h2), w1, h1) == cleared(w1, h1),
        cleared(w1, h1).wf(),
{
}


/// The intermediate image of the raster pass: a color buffer and a depth buffer of one size.
/// A resize replaces both wholesale.
pub struct Output {
    width: u32,
    height: u32,
    color: Vec<u32>,
    depth: Vec<u32>,
}

impl View for Output {
    type V = OutputModel;

    closed spec fn view(&self) -> OutputModel {
        OutputModel {
            width: self.width as nat,
            height: self.height as nat,
            color: self.color@,
            depth: self.depth@,
        }
    }
}

impl Output {
    /// Cleared buffers of `width * height` pixels.
    pub fn new(width: u32, height: u32) -> (r: Output)
        requires
            width * height <= usize::MAX,
        ensures
            r@ == cleared(width as nat, height as nat),
            r@.wf(),
    {
        let n = (width as usize) * (height as usize);
        let color = vec![0u32; n];
        let depth = vec![FAR_DEPTH; n];
        let r = Output { width, height, color, depth };
        proof {
            assert(r@.color =~= cleared(width as nat, height as nat).color);
            assert(r@.depth =~= cleared(width as nat, height as nat).depth);
        }
        r
    }

    /// Resets every pixel to black at the far depth, keeping the size.
    pub fn clear(&mut self)
        requires
            old(self)@.wf(),
        ensures
            final(self)@ == cleared(old(self)@.width, old(self)@.height),
    {
        let n = self.color.len();
        self.color = vec![0u32; n];
        self.depth = vec![FAR_DEPTH; n];
        proof {
            assert(self@.color =~= cleared(self@.width, self@.height).color);
            assert(self@.depth =~= cleared(self@.width, self@.height).depth);
        }
    }

    /// Runs the depth test for each fragment in order.
    pub fn dispatch(&mut self, fragments: &Vec<Fragment>)
        requires
            old(self)@.wf(),
        ensures
            final(self)@ == apply_all(old(self)@, fragments@),
            final(self)@.wf(),
    {
        let n = fragments.len();
        let mut i: usize = 0;
        while i < n
            invariant
                n == fragments@.len(),
                i <= n,
                self@ == apply_all(old(self)@, fragments@.subrange(0, i as int)),
                self@.wf(),
            decreases n - i,
        {
            let f = fragments[i];
            proof {
                let s = fragments@.subrange(0, i + 1);
                assert(s.drop_last() =~= fragments@.subrange(0, i as int));
                assert(s.last() == f);
            }
            if f.pixel < self.depth.len() && f.depth < self.depth[f.pixel] {
                self.color.set(f.pixel, f.color);
                self.depth.set(f.pixel, f.depth);
            }
            proof {
                assert(self@.color =~= apply_fragment(
                    apply_all(old(self)@, fragments@.subrange(0, i as int)),
                    f,
                ).color);
                assert(self@.depth =~= apply_fragment(
                    apply_all(old(self)@, fragments@.subrange(0, i as int)),
                    f,
                ).depth);
            }
            i = i + 1;
        }
        proof {
            assert(fragments@.subrange(0, n as int) =~= fragments@);
        }
    }

    /// Replaces the buffers by cleared ones of the new size; a size with a zero dimension is
    /// ignored.
    pub fn resize(&mut self, width: u32, height: u32)
        requires
            old(self)@.wf(),
            width * height <= usize::MAX,
        ensures
            final(self)@ == resized(old(self)@, width as nat, height as nat),
            final(self)@.wf(),
    {
        if width == 0 || height == 0 {
            return;
        }
        *self = Output::new(width, height);
    }

    pub fn size(&self) -> (r: Size)
        ensures
            r.width == self@.width,
            r.height == self@.height,
    {
        Size { width: self.width, height: self.height }
    }

    /// The color buffer, row by row.
    pub fn color(&self) -> (r: &Vec<u32>)
        ensures
            r@ == self@.color,
    {
        &self.color
    }

    /// The depth buffer, row by row.
    pub fn depth(&self) -> (r: &Vec<u32>)
        ensures
            r@ == self@.depth,
    {
        &self.depth
    }
}

} // verus!
