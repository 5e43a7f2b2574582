//! Approximates a picture by a fixed number of semi-transparent ellipses,
//! found one at a time by a greedy search, and hands the result over as a
//! graphing-calculator document.

pub mod canvas;
pub mod color;
pub mod desmos;
pub mod fixed;
pub mod image_ops;
pub mod optimizer;
pub mod random;
pub mod segmentation;
pub mod shapes;
pub mod sums;
pub mod text;
pub mod theorems;

use crate::desmos::{document, is_document, is_seed_text, random_seed, DesmosState};
use crate::fixed::{HALF, HALF_TURN};
use crate::image_ops::{ImageProcessor, LoadError};
use crate::canvas::{painted, Canvas};
use crate::optimizer::{hill_climb_steps, radius_cap, Optimizer};
use crate::shapes::Ellipse;
use vstd::prelude::*;

verus! {

/// A fitting session: the picture, the canvas, the budget of shapes, and
/// the shapes committed so far.
pub struct DesmosOptimizer {
    optimizer: Optimizer,
    img_width: u32,
    img_height: u32,
    max_shapes: usize,
    current_shape_idx: usize,
    shapes: Vec<Ellipse>,
    fidelity_mode: u8,
}

/// What a session holds.
pub ghost struct Session {
    pub target: Seq<u8>,
    pub canvas: Seq<u8>,
    pub width: u32,
    pub height: u32,
    pub max_shapes: usize,
    pub fidelity_mode: u8,
    pub shapes: Seq<Ellipse>,
}

/// A canvas of `len` bytes, all 255: opaque white.
pub open spec fn blank(len: nat) -> Seq<u8> {
    Seq::new(len, |i: int| 255u8)
}

/// The canvas `w` by `h` after `shapes` are painted on white, first to last.
pub open spec fn composite(shapes: Seq<Ellipse>, w: int, h: int) -> Seq<u8>
    decreases shapes.len(),
{
    if shapes.len() == 0 {
        blank((4 * (w * h)) as nat)
    } else {
        painted(composite(shapes.drop_last(), w, h), w, h, shapes.last())
    }
}

impl Session {
    /// Whether `e` can be the committed shape number `k`: it lies on the
    /// canvas, its semi-axes are within the cap of its place in the budget,
    /// its opacity is at least 10 and is the opacity of its fill, and its
    /// angle is within the reach of the search.
    pub open spec fn admits(self, e: Ellipse, k: int) -> bool {
        &&& e.on_canvas(self.width as int, self.height as int)
        &&& e.rx <= radius_cap(k, self.max_shapes as int)
        &&& e.ry <= radius_cap(k, self.max_shapes as int)
        &&& e.color.3 == e.alpha
        &&& -(HALF_TURN + hill_climb_steps(self.fidelity_mode) * HALF) <= e.angle <= HALF_TURN
            + hill_climb_steps(self.fidelity_mode) * HALF
    }

    /// The pictures as shape number `k` found them: the target, and the
    /// canvas with the shapes before `k` painted on white.
    pub open spec fn canvas_before(self, k: int) -> Canvas {
        Canvas {
            target: self.target,
            current: composite(self.shapes.take(k), self.width as int, self.height as int),
            width: self.width,
            height: self.height,
        }
    }

    /// Whether shape number `k` is what a search found on the pictures as
    /// they were before it, under the cap of its place in the budget.
    pub open spec fn searched(self, k: int) -> bool {
        self.canvas_before(k).finds(
            self.shapes[k],
            radius_cap(k, self.max_shapes as int),
            self.fidelity_mode,
        )
    }

    /// What holds of every session: the picture has a pixel and four bytes
    /// for each; no more shapes are committed than the budget allows; each
    /// is admitted at its place, and is what a search found on the shapes
    /// before it; and the canvas is exactly those shapes painted on white
    /// in their order.
    pub open spec fn valid(self) -> bool {
        &&& self.width > 0
        &&& self.height > 0
        &&& 4 * (self.width * self.height) <= u32::MAX
        &&& self.target.len() == 4 * (self.width * self.height)
        &&& self.shapes.len() <= self.max_shapes
        &&& forall|k: int| 0 <= k < self.shapes.len() ==> self.admits(#[trigger] self.shapes[k], k)
        &&& forall|k: int| 0 <= k < self.shapes.len() ==> #[trigger] self.searched(k)
        &&& self.canvas == composite(self.shapes, self.width as int, self.height as int)
    }

    /// Whether the budget is spent.
    pub open spec fn done(self) -> bool {
        self.shapes.len() >= self.max_shapes
    }
}

impl View for DesmosOptimizer {
    type V = Session;

    closed spec fn view(&self) -> Session {
        Session {
            target: self.optimizer.target_pixels@,
            canvas: self.optimizer.current_pixels@,
            width: self.img_width,
            height: self.img_height,
            max_shapes: self.max_shapes,
            fidelity_mode: self.fidelity_mode,
            shapes: self.shapes@,
        }
    }
}

impl DesmosOptimizer {
    /// Whether the parts of the session agree with each other, whatever the
    /// count of committed shapes says.
    closed spec fn coherent(&self) -> bool {
        &&& self.optimizer.wf()
        &&& self.optimizer.width == self.img_width
        &&& self.optimizer.height == self.img_height
        &&& self@.valid()
    }

    /// Whether the session is in order.
    pub closed spec fn wf(&self) -> bool {
        &&& self.coherent()
        &&& self.current_shape_idx == self.shapes@.len()
    }

    /// A session in order is valid.
    pub proof fn lemma_valid(&self)
        requires
            self.wf(),
        ensures
            self@.valid(),
    {
    }

    /// A session for the picture `img` with a budget of `max_shapes` shapes:
    /// the canvas is white and no shape is committed.
    pub fn from_image(img: &ImageProcessor, max_shapes: usize, fidelity_mode: u8) -> (s:
        DesmosOptimizer)
        requires
            img@.wf(),
        ensures
            s.wf(),
            s@ == (Session {
                target: img@.pixels,
                canvas: blank(img@.pixels.len()),
                width: img@.width,
                height: img@.height,
                max_shapes,
                fidelity_mode,
                shapes: Seq::<Ellipse>::empty(),
            }),
            forall|i: int| 0 <= i < s@.canvas.len() ==> s@.canvas[i] == 255,
    {
        let width: u32 = img.width();
        let height: u32 = img.height();
        let pixels: Vec<u8> = img.get_pixels();
        let optimizer = Optimizer::new(pixels.as_slice(), width, height);
        assert(optimizer.current_pixels@ =~= blank(img@.pixels.len()));
        DesmosOptimizer {
            optimizer,
            img_width: width,
            img_height: height,
            max_shapes,
            current_shape_idx: 0,
            shapes: Vec::new(),
            fidelity_mode,
        }
    }

    /// A session for the encoded picture `image_data`, where it decodes to
    /// a picture with a pixel.
    pub fn new(image_data: &[u8], max_shapes: usize, fidelity_mode: u8) -> (r: Result<
        DesmosOptimizer,
        LoadError,
    >)
        ensures
            r matches Ok(s) ==> {
                &&& s.wf()
                &&& s@.shapes.len() == 0
                &&& s@.max_shapes == max_shapes
                &&& s@.fidelity_mode == fidelity_mode
                &&& s@.canvas == blank(s@.target.len())
                &&& forall|i: int| 0 <= i < s@.canvas.len() ==> s@.canvas[i] == 255
            },
            r matches Err(e) ==> e is Decode || e == LoadError::Empty || e == LoadError::TooLarge,
    {
        match ImageProcessor::new(image_data) {
            Ok(img) => Ok(Self::from_image(&img, max_shapes, fidelity_mode)),
            Err(e) => Err(e),
        }
    }

    /// Commits up to `batch_size` more shapes, as far as the budget allows,
    /// and says whether the budget is spent.
    pub fn step(&mut self, batch_size: usize) -> (done: bool)
        requires
            old(self).wf(),
        ensures
            final(self).wf(),
            final(self)@.shapes.len() == if old(self)@.shapes.len() + batch_size
                <= old(self)@.max_shapes {
                old(self)@.shapes.len() + batch_size
            } else {
                old(self)@.max_shapes as int
            },
            final(self)@.shapes.subrange(0, old(self)@.shapes.len() as int) == old(self)@.shapes,
            final(self)@.target == old(self)@.target,
            final(self)@.width == old(self)@.width,
            final(self)@.height == old(self)@.height,
            final(self)@.max_shapes == old(self)@.max_shapes,
            final(self)@.fidelity_mode == old(self)@.fidelity_mode,
            done == final(self)@.done(),
            old(self)@.done() ==> final(self)@ == old(self)@,
    {
        let start: usize = self.current_shape_idx;
        let room: usize = self.max_shapes - start;
        let end: usize = if batch_size < room {
            start + batch_size
        } else {
            self.max_shapes
        };
        let mut i: usize = start;
        while i < end
            invariant
                self.coherent(),
                start <= i <= end <= self.max_shapes,
                self.shapes@.len() == i,
                self.shapes@.subrange(0, start as int) == old(self).shapes@,
                self@.target == old(self)@.target,
                self@.width == old(self)@.width,
                self@.height == old(self)@.height,
                self@.max_shapes == old(self)@.max_shapes,
                self@.fidelity_mode == old(self)@.fidelity_mode,
                i == start ==> self@ == old(self)@,
            decreases end - i,
        {
            let ghost before = self.shapes@;
            let ghost earlier = self@;
            let shape = self.optimizer.add_shape(i, self.max_shapes, self.fidelity_mode);
            self.shapes.push(shape);
            proof {
                assert(self.shapes@.drop_last() =~= before);
                assert(self.shapes@.last() == shape);
                assert(self.shapes@.subrange(0, start as int) =~= before.subrange(0, start as int));
                assert forall|k: int| 0 <= k < self.shapes@.len() implies self@.admits(
                    #[trigger] self.shapes@[k],
                    k,
                ) by {
                    if k < i {
                        assert(self.shapes@[k] == before[k]);
                    }
                }
                assert forall|k: int| 0 <= k < self.shapes@.len() implies #[trigger] self@.searched(
                    k,
                ) by {
                    if k < i {
                        assert(self.shapes@.take(k) =~= before.take(k));
                        assert(self.shapes@[k] == before[k]);
                        assert(earlier.searched(k));
                    } else {
                        assert(self.shapes@.take(k) =~= before);
                    }
                }
            }
            i = i + 1;
        }
        self.current_shape_idx = end;
        proof {
            assert(old(self).shapes@.subrange(0, start as int) =~= old(self).shapes@);
        }
        self.current_shape_idx >= self.max_shapes
    }

    /// The document of the shapes committed so far, with a fresh random
    /// seed. The session stays as it is.
    pub fn export(&self) -> (doc: DesmosState)
        requires
            self.wf(),
        ensures
            is_document(
                doc,
                self@.shapes,
                self@.width as int,
                self@.height as int,
                doc.random_seed@,
            ),
            is_seed_text(doc.random_seed@),
    {
        let seed: String = random_seed();
        proof {
            assert forall|i: int| 0 <= i < self.shapes@.len() implies (#[trigger] self.shapes@[i]).on_canvas(
                self.img_width as int,
                self.img_height as int,
            ) && self.shapes@[i].angle > i64::MIN by {
                assert(self@.admits(self.shapes@[i], i));
                assert(0 <= hill_climb_steps(self.fidelity_mode) <= 8000);
            }
        }
        document(&self.shapes, self.img_width, self.img_height, seed)
    }

    /// How many shapes are committed.
    pub fn shape_count(&self) -> (n: usize)
        ensures
            n == self@.shapes.len(),
    {
        self.shapes.len()
    }

    /// The shapes committed so far, first to last.
    pub fn shapes(&self) -> (s: &Vec<Ellipse>)
        ensures
            s@ == self@.shapes,
    {
        &self.shapes
    }

    /// The canvas: four bytes per pixel, row by row.
    pub fn canvas(&self) -> (c: &Vec<u8>)
        ensures
            c@ == self@.canvas,
    {
        &self.optimizer.current_pixels
    }

    /// The picture that is approximated, laid out as the canvas is.
    pub fn target(&self) -> (t: &Vec<u8>)
        ensures
            t@ == self@.target,
    {
        &self.optimizer.target_pixels
    }
}

} // verus!
