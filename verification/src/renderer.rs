//! The render of an image: the colour of a ray, the colour of a pixel, and
//! the pixels of the image in raster order.
//!
//! Colours and rays are computed elsewhere, in floating point. What stands
//! here is what is done with them: how far a path of rays is followed, how
//! the samples of a pixel are summed, and in which order the pixels are
//! worked on and delivered. So a colour is a value of any type, a ray
//! likewise, and the arithmetic on them is handed in as functions.

use vstd::prelude::*;
use crate::scheduler::lemma_raster_order;
use crate::scheduler::pixel_count;
use crate::scheduler::pixel_x_of;
use crate::scheduler::pixel_y_of;
use crate::scheduler::Pixel;
use crate::scheduler::Scheduler;

verus! {

/// The task of one pixel: the pixel and, once a worker has completed the
/// task, the pixel's colour.
#[derive(Debug)]
pub struct PixelFuture<R> {
    pub pixel_x: i32,
    pub pixel_y: i32,
    pub pixel_result: Option<R>,
}

impl<R> PixelFuture<R> {
    /// The task of the pixel in column `pixel_x` and row `pixel_y`, not yet
    /// complete.
    pub fn new(pixel_x: i32, pixel_y: i32) -> (task: Self)
        ensures
            task.pixel_x == pixel_x,
            task.pixel_y == pixel_y,
            task.pixel_result is None,
    {
        Self { pixel_x, pixel_y, pixel_result: None }
    }

    /// The pixel's colour, once the task is complete; `None` before.
    pub fn poll(&self) -> (ready: Option<&R>)
        ensures
            self.pixel_result matches Some(r) ==> ready == Some(&r),
            self.pixel_result is None ==> ready is None,
    {
        self.pixel_result.as_ref()
    }

    /// Completes the task with the colour `result`. A task is completed
    /// once: on a complete task nothing changes, and the answer is `false`.
    pub fn complete(&mut self, result: R) -> (accepted: bool)
        ensures
            accepted == old(self).pixel_result is None,
            accepted ==> final(self).pixel_result == Some(result),
            !accepted ==> final(self).pixel_result == old(self).pixel_result,
            final(self).pixel_x == old(self).pixel_x,
            final(self).pixel_y == old(self).pixel_y,
    {
        if self.pixel_result.is_none() {
            self.pixel_result = Some(result);
            true
        } else {
            false
        }
    }
}

/// Whether `colour` is a colour that `pixel` may compute for the pixel with
/// raster index `index` in an image `width` pixels wide.
pub open spec fn is_colour_of<R, F: Fn(i32, i32) -> R>(
    pixel: F,
    width: int,
    index: int,
    colour: R,
) -> bool {
    call_ensures(pixel, (pixel_x_of(index, width) as i32, pixel_y_of(index, width) as i32), colour)
}

/// Renders an image `image_width` pixels wide and `image_height` pixels
/// high through a scheduler with a queue of at most `C` tasks, and puts the
/// colours of its pixels behind `image` in raster order. `pixel` computes the
/// colour of the pixel in a given column and row.
///
/// The one worker here fills the queue, then completes the queued tasks from
/// the newest back to the oldest, then lets the scheduler deliver: so tasks
/// are completed out of order for every `C` above one.
pub fn render_inner<R, F, const C: usize>(
    image_width: i32,
    image_height: i32,
    pixel: F,
    image: &mut Vec<R>,
) where F: Fn(i32, i32) -> R
    requires
        C >= 1,
        pixel_count(image_width as int, image_height as int) <= i32::MAX,
        forall|x: i32, y: i32|
            0 <= x < image_width && 0 <= y < image_height ==> call_requires(pixel, (x, y)),
    ensures
        final(image)@.len() == old(image)@.len() + pixel_count(
            image_width as int,
            image_height as int,
        ),
        final(image)@.subrange(0, old(image)@.len() as int) == old(image)@,
        forall|k: int|
            old(image)@.len() <= k < final(image)@.len() ==> is_colour_of(
                pixel,
                image_width as int,
                k - old(image)@.len(),
                #[trigger] final(image)@[k],
            ),
{
    let ghost base: int = image@.len() as int;
    let ghost width: int = image_width as int;
    let ghost total: int = pixel_count(image_width as int, image_height as int);
    let mut scheduler: Scheduler<R, C> = Scheduler::new(image_width, image_height);
    let mut waiting: Vec<Pixel> = Vec::new();
    while !scheduler.is_done()
        invariant
            C >= 1,
            base == old(image)@.len(),
            width == image_width,
            total == pixel_count(image_width as int, image_height as int),
            forall|x: i32, y: i32|
                0 <= x < image_width && 0 <= y < image_height ==> call_requires(pixel, (x, y)),
            scheduler.wf(),
            scheduler@.width == image_width,
            scheduler@.height == image_height,
            scheduler@.capacity == C,
            scheduler@.slots.len() == 0,
            waiting@.len() == 0,
            image@.len() == base + scheduler@.delivered,
            image@.subrange(0, base) == old(image)@,
            forall|k: int|
                base <= k < image@.len() ==> is_colour_of(pixel, width, k - base, #[trigger] image@[k]),
        decreases total - scheduler@.delivered,
    {
        let ghost first: nat = scheduler@.delivered;
        proof {
            scheduler.lemma_wf_reachable();
        }
        let mut room: bool = true;
        while room
            invariant
                C >= 1,
                width == image_width,
                total == pixel_count(image_width as int, image_height as int),
                scheduler.wf(),
                scheduler@.width == image_width,
                scheduler@.height == image_height,
                scheduler@.capacity == C,
                scheduler@.delivered == first,
                first < total,
                scheduler@.reachable(),
                waiting@.len() == scheduler@.slots.len(),
                forall|j: int| 0 <= j < scheduler@.slots.len() ==> scheduler@.slots[j] is None,
                forall|k: int|
                    0 <= k < waiting@.len() ==> {
                        &&& (#[trigger] waiting@[k]).index == first + k
                        &&& waiting@[k].x == pixel_x_of(first + k, width)
                        &&& waiting@[k].y == pixel_y_of(first + k, width)
                    },
                !room ==> !scheduler@.can_produce(),
            decreases total - scheduler@.produced + if room {
                1int
            } else {
                0int
            },
        {
            match scheduler.try_produce() {
                Some(task) => {
                    waiting.push(task);
                },
                None => {
                    room = false;
                },
            }
            proof {
                scheduler.lemma_wf_reachable();
            }
        }
        let ghost queued: nat = scheduler@.slots.len();
        while waiting.len() > 0
            invariant
                width == image_width,
                total == pixel_count(image_width as int, image_height as int),
                forall|x: i32, y: i32|
                    0 <= x < image_width && 0 <= y < image_height ==> call_requires(pixel, (x, y)),
                scheduler.wf(),
                scheduler@.width == image_width,
                scheduler@.height == image_height,
                scheduler@.capacity == C,
                scheduler@.delivered == first,
                scheduler@.reachable(),
                scheduler@.slots.len() == queued,
                waiting@.len() <= queued,
                forall|j: int| 0 <= j < waiting@.len() ==> scheduler@.slots[j] is None,
                forall|j: int|
                    waiting@.len() <= j < queued ==> (#[trigger] scheduler@.slots[j] matches Some(
                        colour,
                    ) && is_colour_of(pixel, width, first + j, colour)),
                forall|k: int|
                    0 <= k < waiting@.len() ==> {
                        &&& (#[trigger] waiting@[k]).index == first + k
                        &&& waiting@[k].x == pixel_x_of(first + k, width)
                        &&& waiting@[k].y == pixel_y_of(first + k, width)
                    },
            decreases waiting@.len(),
        {
            let task = waiting.pop().unwrap();
            proof {
                lemma_raster_order(task.index as int, width, image_height as int);
            }
            let colour = pixel(task.x, task.y);
            scheduler.complete(task.index, colour);
            proof {
                scheduler.lemma_wf_reachable();
            }
        }
        let mut ready: bool = true;
        while ready
            invariant
                base == old(image)@.len(),
                width == image_width,
                total == pixel_count(image_width as int, image_height as int),
                scheduler.wf(),
                scheduler@.width == image_width,
                scheduler@.height == image_height,
                scheduler@.capacity == C,
                scheduler@.reachable(),
                scheduler@.delivered + scheduler@.slots.len() == first + queued,
                forall|j: int|
                    0 <= j < scheduler@.slots.len() ==> (#[trigger] scheduler@.slots[j] matches Some(
                        colour,
                    ) && is_colour_of(pixel, width, scheduler@.delivered + j, colour)),
                image@.len() == base + scheduler@.delivered,
                image@.subrange(0, base) == old(image)@,
                forall|k: int|
                    base <= k < image@.len() ==> is_colour_of(
                        pixel,
                        width,
                        k - base,
                        #[trigger] image@[k],
                    ),
                !ready ==> scheduler@.slots.len() == 0,
            decreases scheduler@.slots.len() + if ready {
                1int
            } else {
                0int
            },
        {
            match scheduler.try_consume() {
                Some(colour) => {
                    image.push(colour);
                },
                None => {
                    ready = false;
                },
            }
            proof {
                scheduler.lemma_wf_reachable();
            }
        }
    }
}

/// What a ray meets, with the colours and the ray that follow from it.
pub enum Interaction<Ry, C> {
    /// No object of the scene: the ray leaves into the sky, whose colour in
    /// the ray's direction is `sky`.
    Miss { sky: C },
    /// A surface that ends the ray and gives it the colour `colour`.
    Absorbed { colour: C },
    /// A surface that emits the colour `emissive`, scatters the ray into the
    /// ray `scattered`, and dims what that ray brings by the colour
    /// `diffuse`.
    Scattered { emissive: C, diffuse: C, scattered: Ry },
}

/// What `trace` may find a ray to meet, as a relation between the ray and
/// what it meets.
pub open spec fn finds<Ry, C, M: Fn(&Ry) -> Interaction<Ry, C>>(trace: M) -> spec_fn(
    Ry,
    Interaction<Ry, C>,
) -> bool {
    |ray: Ry, met: Interaction<Ry, C>| call_ensures(trace, (&ray,), met)
}

/// What `blend` may make of a surface's emission, its attenuation and the
/// colour that the scattered ray brings, as a relation between these three
/// and the result.
pub open spec fn blends<C, B: Fn(C, C, C) -> C>(blend: B) -> spec_fn(C, C, C, C) -> bool {
    |emissive: C, diffuse: C, inner: C, colour: C|
        call_ensures(blend, (emissive, diffuse, inner), colour)
}

/// Whether `colour` is a colour of the ray `ray` that has budget left, given
/// that it meets `met` and that the scattered ray, if there is one, brings
/// the colour `inner`: the sky's colour on a miss, the surface's colour where
/// the ray ends, and otherwise a blend of the emission, the attenuation and
/// `inner`.
pub open spec fn shades<Ry, C>(
    found: spec_fn(Ry, Interaction<Ry, C>) -> bool,
    blended: spec_fn(C, C, C, C) -> bool,
    ray: Ry,
    colour: C,
    met: Interaction<Ry, C>,
    inner: C,
) -> bool {
    &&& found(ray, met)
    &&& match met {
        Interaction::Miss { sky } => colour == sky,
        Interaction::Absorbed { colour: surface } => colour == surface,
        Interaction::Scattered { emissive, diffuse, scattered } => blended(
            emissive,
            diffuse,
            inner,
            colour,
        ),
    }
}

/// Whether `colour` is a colour of the ray `ray` with the bounce budget
/// `depth`: `black` where the budget is spent, whatever the scene holds;
/// otherwise a colour that follows from what the ray is found to meet and,
/// where the ray is scattered, from a colour of the scattered ray with a
/// budget of one less.
pub open spec fn is_ray_color<Ry, C>(
    found: spec_fn(Ry, Interaction<Ry, C>) -> bool,
    blended: spec_fn(C, C, C, C) -> bool,
    black: C,
    ray: Ry,
    depth: int,
    colour: C,
) -> bool
    decreases depth,
{
    if depth <= 0 {
        colour == black
    } else {
        exists|met: Interaction<Ry, C>, inner: C|
            {
                &&& #[trigger] shades(found, blended, ray, colour, met, inner)
                &&& met matches Interaction::Scattered { scattered, .. } ==> is_ray_color(
                    found,
                    blended,
                    black,
                    scattered,
                    depth - 1,
                    inner,
                )
            }
    }
}

/// The colour that the ray `ray` with the bounce budget `depth` brings.
///
/// `trace` finds what a ray meets in the scene, and `blend` makes the colour
/// of a scattered ray's origin out of the surface's emission, its
/// attenuation and the colour that the scattered ray brings. A ray without
/// budget is `black`, and the scene is not asked what it meets. So a path
/// ends after `depth` rays at the latest.
pub fn ray_color<Ry, C, M, B>(ray: Ry, depth: i32, trace: M, blend: B, black: C) -> (colour: C) where
    C: Copy,
    M: Fn(&Ry) -> Interaction<Ry, C>,
    B: Fn(C, C, C) -> C,

    requires
        forall|r: &Ry| call_requires(trace, (r,)),
        forall|emissive: C, diffuse: C, inner: C| call_requires(blend, (emissive, diffuse, inner)),
    ensures
        is_ray_color(finds(trace), blends(blend), black, ray, depth as int, colour),
        depth <= 0 ==> colour == black,
{
    follow_ray(ray, depth, &trace, &blend, black)
}

/// The colour that the ray `ray` with the bounce budget `depth` brings.
fn follow_ray<Ry, C, M, B>(ray: Ry, depth: i32, trace: &M, blend: &B, black: C) -> (colour: C) where
    C: Copy,
    M: Fn(&Ry) -> Interaction<Ry, C>,
    B: Fn(C, C, C) -> C,

    requires
        forall|r: &Ry| call_requires(*trace, (r,)),
        forall|emissive: C, diffuse: C, inner: C| call_requires(*blend, (emissive, diffuse, inner)),
    ensures
        is_ray_color(finds(*trace), blends(*blend), black, ray, depth as int, colour),
        depth <= 0 ==> colour == black,
    decreases depth,
{
    if depth <= 0 {
        return black;
    }
    let met = trace(&ray);
    match met {
        Interaction::Miss { sky } => {
            assert(shades(finds(*trace), blends(*blend), ray, sky, met, black));
            sky
        },
        Interaction::Absorbed { colour } => {
            assert(shades(finds(*trace), blends(*blend), ray, colour, met, black));
            colour
        },
        Interaction::Scattered { emissive, diffuse, scattered } => {
            let inner = follow_ray(scattered, depth - 1, trace, blend, black);
            let colour = blend(emissive, diffuse, inner);
            assert(shades(finds(*trace), blends(*blend), ray, colour, met, inner));
            colour
        },
    }
}

/// What `sample` may draw, as a property of the sample.
pub open spec fn draws<C, S: Fn() -> C>(sample: S) -> spec_fn(C) -> bool {
    |drawn: C| call_ensures(sample, (), drawn)
}

/// What `join` may make of a sum and one more sample, as a relation between
/// these two and the result.
pub open spec fn joins<C, A: Fn(C, C) -> C>(join: A) -> spec_fn(C, C, C) -> bool {
    |before: C, drawn: C, sum: C| call_ensures(join, (before, drawn), sum)
}

/// Whether `drawn` is a sample and `sum` is `before` and `drawn` joined.
pub open spec fn joins_sample<C>(
    drawn_by: spec_fn(C) -> bool,
    joined: spec_fn(C, C, C) -> bool,
    before: C,
    drawn: C,
    sum: C,
) -> bool {
    drawn_by(drawn) && joined(before, drawn, sum)
}

/// Whether `sum` is a sum of `count` samples: `zero` for no sample, and
/// otherwise a sum of one sample less joined with one more sample.
pub open spec fn is_sample_sum<C>(
    drawn_by: spec_fn(C) -> bool,
    joined: spec_fn(C, C, C) -> bool,
    zero: C,
    count: int,
    sum: C,
) -> bool
    decreases count,
{
    if count <= 0 {
        sum == zero
    } else {
        exists|before: C, drawn: C|
            {
                &&& #[trigger] joins_sample(drawn_by, joined, before, drawn, sum)
                &&& is_sample_sum(drawn_by, joined, zero, count - 1, before)
            }
    }
}

/// The sum of the colours of one pixel's samples: `sample` is drawn
/// `samples_per_pixel` times, and `join` adds each sample to the sum of those
/// before it, which starts at `zero`. No sample is drawn where
/// `samples_per_pixel` is not positive.
pub fn render_inner_thread<C, S, A>(samples_per_pixel: i32, sample: S, join: A, zero: C) -> (sum: C) where
    C: Copy,
    S: Fn() -> C,
    A: Fn(C, C) -> C,

    requires
        call_requires(sample, ()),
        forall|before: C, drawn: C| call_requires(join, (before, drawn)),
    ensures
        is_sample_sum(draws(sample), joins(join), zero, samples_per_pixel as int, sum),
        samples_per_pixel <= 0 ==> sum == zero,
{
    let mut sum: C = zero;
    let mut drawn_so_far: i32 = 0;
    while drawn_so_far < samples_per_pixel
        invariant
            call_requires(sample, ()),
            forall|before: C, drawn: C| call_requires(join, (before, drawn)),
            0 <= drawn_so_far,
            samples_per_pixel > 0 ==> drawn_so_far <= samples_per_pixel,
            samples_per_pixel <= 0 ==> drawn_so_far == 0,
            is_sample_sum(draws(sample), joins(join), zero, drawn_so_far as int, sum),
            drawn_so_far == 0 ==> sum == zero,
        decreases samples_per_pixel - drawn_so_far,
    {
        let before = sum;
        let drawn = sample();
        sum = join(before, drawn);
        drawn_so_far += 1;
        assert(joins_sample(draws(sample), joins(join), before, drawn, sum));
    }
    sum
}

} // verus!
