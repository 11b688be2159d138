//! The schedule of a render: one task per pixel, worked on out of order,
//! delivered in raster order.
//!
//! A render is a sequence of three kinds of events. A task is produced for
//! the next pixel in raster order and queued. A worker completes a queued
//! task, any of them, with the pixel's colour. The task at the head of the
//! queue, once complete, is consumed and its colour delivered. The queue is
//! bounded, so production waits while it is full, and consumption waits while
//! the head is incomplete, however many tasks behind it are complete.
//!
//! [`Schedule`] is the state of a render and says what each event does to
//! it; [`Scheduler`] holds that state in a [`RingBuffer`] and carries the
//! events out. Colours are not looked into here: a colour is a value of any
//! type `R`.

use vstd::prelude::*;
use vstd::arithmetic::div_mod::lemma_fundamental_div_mod;
use vstd::arithmetic::div_mod::lemma_fundamental_div_mod_converse;
use crate::renderer::PixelFuture;
use crate::ringbuffer::RingBuffer;

verus! {

/// The column of the pixel with raster index `index` in an image `width`
/// pixels wide.
pub open spec fn pixel_x_of(index: int, width: int) -> int {
    index % width
}

/// The row of the pixel with raster index `index` in an image `width` pixels
/// wide.
pub open spec fn pixel_y_of(index: int, width: int) -> int {
    index / width
}

/// The number of pixels of an image; none where a side is not positive.
pub open spec fn pixel_count(width: int, height: int) -> int {
    if width > 0 && height > 0 {
        width * height
    } else {
        0
    }
}

/// Raster order runs through the rows from the top and through each row from
/// the left: the pixel with index `index` lies in the image, and its index is
/// its row times the width plus its column.
pub proof fn lemma_raster_order(index: int, width: int, height: int)
    requires
        0 <= index < pixel_count(width, height),
    ensures
        0 <= pixel_x_of(index, width) < width,
        0 <= pixel_y_of(index, width) < height,
        index == pixel_y_of(index, width) * width + pixel_x_of(index, width),
{
    lemma_fundamental_div_mod(index, width);
    let y = index / width;
    let x = index % width;
    assert(0 <= y < height) by (nonlinear_arith)
        requires
            index == width * y + x,
            0 <= x < width,
            0 <= index < width * height,
            width > 0,
            height > 0,
    ;
}

/// The pixel in column `x` and row `y` has the raster index `y * width + x`.
pub proof fn lemma_raster_index(x: int, y: int, width: int)
    requires
        0 <= x < width,
        0 <= y,
    ensures
        pixel_x_of(y * width + x, width) == x,
        pixel_y_of(y * width + x, width) == y,
{
    lemma_fundamental_div_mod_converse(y * width + x, width, y, x);
}

/// A pixel for which a task was produced.
#[derive(Clone, Copy, Debug, PartialEq, Eq, Structural)]
pub struct Pixel {
    /// The place of the pixel in raster order, from 0.
    pub index: usize,
    /// The column of the pixel, from the left.
    pub x: i32,
    /// The row of the pixel, from the top.
    pub y: i32,
}

impl Pixel {
    /// The pixel with the raster index `index` in an image `image_width`
    /// pixels wide and `image_height` pixels high, or `None` where the image
    /// has no such pixel.
    pub fn at(index: usize, image_width: i32, image_height: i32) -> (pixel: Option<Pixel>)
        ensures
            pixel is Some <==> index < pixel_count(image_width as int, image_height as int),
            pixel matches Some(p) ==> {
                &&& p.index == index
                &&& p.x == pixel_x_of(index as int, image_width as int)
                &&& p.y == pixel_y_of(index as int, image_width as int)
                &&& 0 <= p.x < image_width
                &&& 0 <= p.y < image_height
                &&& index == p.y * image_width + p.x
            },
    {
        if image_width <= 0 || image_height <= 0 {
            return None;
        }
        let width: usize = image_width as usize;
        let height: usize = image_height as usize;
        let column: usize = index % width;
        let row: usize = index / width;
        proof {
            lemma_fundamental_div_mod(index as int, width as int);
            let count = pixel_count(image_width as int, image_height as int);
            assert(row < height <==> index < count) by (nonlinear_arith)
                requires
                    index == width * row + column,
                    0 <= column < width,
                    0 <= row,
                    height > 0,
                    count == width * height,
            ;
        }
        if row >= height {
            return None;
        }
        Some(Pixel { index, x: column as i32, y: row as i32 })
    }
}

/// The state of a render.
pub ghost struct Schedule<R> {
    /// The width of the image in pixels.
    pub width: int,
    /// The height of the image in pixels.
    pub height: int,
    /// The number of tasks that the queue holds at most.
    pub capacity: nat,
    /// The number of tasks produced so far.
    pub produced: nat,
    /// The number of colours delivered so far.
    pub delivered: nat,
    /// The queued tasks, oldest first: the colour of each complete one.
    /// The task in place `j` is that of the pixel with raster index
    /// `delivered + j`.
    pub slots: Seq<Option<R>>,
}

/// An event of a render.
pub ghost enum Event<R> {
    /// The task of the next pixel is produced and queued.
    Produce,
    /// A worker has computed the colour `result` of the pixel with raster
    /// index `index`.
    Complete { index: nat, result: R },
    /// The colour of the task at the head of the queue is delivered.
    Consume,
}

impl<R> Schedule<R> {
    /// The state before the first event.
    pub open spec fn start(width: int, height: int, capacity: nat) -> Self {
        Schedule { width, height, capacity, produced: 0, delivered: 0, slots: Seq::empty() }
    }

    /// The number of pixels of the image.
    pub open spec fn total(self) -> int {
        pixel_count(self.width, self.height)
    }

    /// Whether every pixel's colour has been delivered.
    pub open spec fn done(self) -> bool {
        self.delivered == self.total()
    }

    /// Whether a task can be produced: a pixel is left and the queue has
    /// room.
    pub open spec fn can_produce(self) -> bool {
        self.produced < self.total() && self.slots.len() < self.capacity
    }

    /// Whether the task of the pixel with raster index `index` can be
    /// completed: the task is queued and not yet complete.
    pub open spec fn can_complete(self, index: nat) -> bool {
        self.delivered <= index < self.delivered + self.slots.len() && self.slots[index
            - self.delivered] is None
    }

    /// Whether a colour can be delivered: the task at the head of the queue
    /// is complete.
    pub open spec fn can_consume(self) -> bool {
        self.slots.len() > 0 && self.slots[0] is Some
    }

    /// The state after `event`. An event that cannot take place changes
    /// nothing.
    pub open spec fn step(self, event: Event<R>) -> Self {
        match event {
            Event::Produce => if self.can_produce() {
                Schedule { produced: self.produced + 1, slots: self.slots.push(None), ..self }
            } else {
                self
            },
            Event::Complete { index, result } => if self.can_complete(index) {
                Schedule {
                    slots: self.slots.update(index - self.delivered, Some(result)),
                    ..self
                }
            } else {
                self
            },
            Event::Consume => if self.can_consume() {
                Schedule { delivered: self.delivered + 1, slots: self.slots.drop_first(), ..self }
            } else {
                self
            },
        }
    }

    /// The colour that `event` delivers, if it delivers one.
    pub open spec fn output(self, event: Event<R>) -> Option<R> {
        match event {
            Event::Consume => if self.can_consume() {
                self.slots[0]
            } else {
                None
            },
            _ => None,
        }
    }

    /// The state after the events `events`, in their order.
    pub open spec fn run(self, events: Seq<Event<R>>) -> Self
        decreases events.len(),
    {
        if events.len() == 0 {
            self
        } else {
            self.run(events.drop_last()).step(events.last())
        }
    }

    /// The colours that the events `events` deliver, in the order of their
    /// delivery.
    pub open spec fn delivery(self, events: Seq<Event<R>>) -> Seq<R>
        decreases events.len(),
    {
        if events.len() == 0 {
            Seq::empty()
        } else {
            let before = self.delivery(events.drop_last());
            match self.run(events.drop_last()).output(events.last()) {
                Some(colour) => before.push(colour),
                None => before,
            }
        }
    }

    /// What holds of a state that a render can reach: the tasks produced are
    /// those delivered and those queued, no more are queued than the queue
    /// holds, and no more are produced than the image has pixels.
    pub open spec fn reachable(self) -> bool {
        &&& self.produced == self.delivered + self.slots.len()
        &&& self.slots.len() <= self.capacity
        &&& self.produced <= self.total()
    }

    /// Every event keeps a state within reach.
    pub proof fn lemma_step_reachable(self, event: Event<R>)
        requires
            self.reachable(),
        ensures
            self.step(event).reachable(),
    {
    }

    /// A render that is not done is never stuck, given a queue that holds at
    /// least one task: a task can be produced, or the task at the head of
    /// the queue can be completed, or its colour can be delivered.
    pub proof fn lemma_never_stuck(self)
        requires
            self.reachable(),
            self.capacity >= 1,
            !self.done(),
        ensures
            self.can_produce() || self.can_complete(self.delivered) || self.can_consume(),
    {
    }
}

/// Whether the worker's colour in every completion among `events` is the
/// colour that `colours` gives to the pixel.
pub open spec fn completes_with<R>(events: Seq<Event<R>>, colours: spec_fn(nat) -> R) -> bool {
    forall|k: int|
        0 <= k < events.len() ==> (#[trigger] events[k] matches Event::Complete { index, result }
            ==> result == colours(index))
}

/// What [`lemma_in_order_delivery`] carries through a render: the colours
/// delivered and the colours of the complete tasks in the queue are those of
/// their pixels.
pub open spec fn in_order<R>(
    state: Schedule<R>,
    delivered: Seq<R>,
    colours: spec_fn(nat) -> R,
) -> bool {
    &&& state.reachable()
    &&& delivered.len() == state.delivered
    &&& forall|i: int| 0 <= i < delivered.len() ==> #[trigger] delivered[i] == colours(i as nat)
    &&& forall|j: int|
        0 <= j < state.slots.len() ==> (#[trigger] state.slots[j] matches Some(colour) ==> colour
            == colours((state.delivered + j) as nat))
}

/// Out-of-order completion, in-order delivery: let each pixel have a colour,
/// and let the workers complete the tasks with these colours in any order
/// and at any time. Then the colours delivered are the colours of the
/// pixels in raster order, from the first pixel on, without a gap: the
/// `i`-th colour delivered is that of the pixel with raster index `i`. Once
/// the render is done they are the colours of all the pixels of the image.
pub proof fn lemma_in_order_delivery<R>(
    width: int,
    height: int,
    capacity: nat,
    events: Seq<Event<R>>,
    colours: spec_fn(nat) -> R,
)
    requires
        completes_with(events, colours),
    ensures
        ({
            let start = Schedule::<R>::start(width, height, capacity);
            let end = start.run(events);
            &&& end.reachable()
            &&& start.delivery(events) == Seq::new(end.delivered, |i: int| colours(i as nat))
            &&& end.done() ==> start.delivery(events).len() == pixel_count(width, height)
        }),
{
    let start = Schedule::<R>::start(width, height, capacity);
    lemma_in_order(start, events, colours);
    lemma_run_keeps_image(start, events);
}

/// No event changes the image's size or the queue's capacity.
proof fn lemma_run_keeps_image<R>(start: Schedule<R>, events: Seq<Event<R>>)
    ensures
        start.run(events).width == start.width,
        start.run(events).height == start.height,
        start.run(events).capacity == start.capacity,
    decreases events.len(),
{
    if events.len() > 0 {
        lemma_run_keeps_image(start, events.drop_last());
    }
}

/// Every event keeps the colours in order, by induction over the events.
proof fn lemma_in_order<R>(start: Schedule<R>, events: Seq<Event<R>>, colours: spec_fn(nat) -> R)
    requires
        completes_with(events, colours),
        start == Schedule::<R>::start(start.width, start.height, start.capacity),
    ensures
        in_order(start.run(events), start.delivery(events), colours),
    decreases events.len(),
{
    if events.len() > 0 {
        lemma_in_order(start, events.drop_last(), colours);
    }
}

/// The scheduler of a render, with a queue of at most `C` tasks.
#[derive(Debug)]
pub struct Scheduler<R, const C: usize> {
    image_width: i32,
    image_height: i32,
    produced: usize,
    delivered: usize,
    queue: RingBuffer<PixelFuture<R>, C>,
}

impl<R, const C: usize> View for Scheduler<R, C> {
    type V = Schedule<R>;

    /// The state of the render.
    closed spec fn view(&self) -> Schedule<R> {
        Schedule {
            width: self.image_width as int,
            height: self.image_height as int,
            capacity: C as nat,
            produced: self.produced as nat,
            delivered: self.delivered as nat,
            slots: self.queue@.map_values(|task: PixelFuture<R>| task.pixel_result),
        }
    }
}

impl<R, const C: usize> Scheduler<R, C> {
    /// The representation is consistent: the state is within reach, fits the
    /// machine's integers, and each queued task is that of the pixel whose
    /// turn it was.
    pub closed spec fn wf(&self) -> bool {
        &&& self.queue.wf()
        &&& self@.reachable()
        &&& self@.total() <= i32::MAX
        &&& self.in_turn()
    }

    /// Each queued task is that of the pixel whose turn it was: the task in
    /// place `j` of the queue is that of the pixel with raster index
    /// `delivered + j`.
    spec fn in_turn(&self) -> bool {
        forall|j: int|
            0 <= j < self.queue@.len() ==> {
                &&& (#[trigger] self.queue@[j]).pixel_x == pixel_x_of(
                    self.delivered + j,
                    self.image_width as int,
                )
                &&& self.queue@[j].pixel_y == pixel_y_of(
                    self.delivered + j,
                    self.image_width as int,
                )
            }
    }

    /// A consistent scheduler is in a state that a render can reach.
    pub proof fn lemma_wf_reachable(&self)
        requires
            self.wf(),
        ensures
            self@.reachable(),
            self@.capacity == C,
            self@.total() <= i32::MAX,
    {
    }

    /// The scheduler of the render of an image `image_width` pixels wide and
    /// `image_height` pixels high, before the first event. The number of
    /// pixels must fit a signed 32-bit integer.
    pub fn new(image_width: i32, image_height: i32) -> (scheduler: Self)
        requires
            pixel_count(image_width as int, image_height as int) <= i32::MAX,
        ensures
            scheduler.wf(),
            scheduler@ == Schedule::<R>::start(image_width as int, image_height as int, C as nat),
    {
        let scheduler = Scheduler {
            image_width,
            image_height,
            produced: 0,
            delivered: 0,
            queue: RingBuffer::new(),
        };
        assert(scheduler@.slots =~= Seq::<Option<R>>::empty());
        scheduler
    }

    /// The number of pixels of the image.
    pub fn total(&self) -> (total: usize)
        requires
            self.wf(),
        ensures
            total == self@.total(),
    {
        if self.image_width > 0 && self.image_height > 0 {
            let width: i64 = self.image_width as i64;
            let height: i64 = self.image_height as i64;
            (width * height) as usize
        } else {
            0
        }
    }

    /// The number of tasks produced so far.
    pub fn produced(&self) -> (produced: usize)
        requires
            self.wf(),
        ensures
            produced == self@.produced,
    {
        self.produced
    }

    /// The number of colours delivered so far.
    pub fn delivered(&self) -> (delivered: usize)
        requires
            self.wf(),
        ensures
            delivered == self@.delivered,
    {
        self.delivered
    }

    /// The number of tasks in the queue.
    pub fn in_flight(&self) -> (queued: usize)
        requires
            self.wf(),
        ensures
            queued == self@.slots.len(),
            queued <= C,
    {
        self.queue.len()
    }

    /// Whether every pixel's colour has been delivered.
    pub fn is_done(&self) -> (done: bool)
        requires
            self.wf(),
        ensures
            done == self@.done(),
    {
        self.delivered == self.total()
    }

    /// Produces the task of the next pixel in raster order and queues it,
    /// where a pixel is left and the queue has room, and returns the pixel:
    /// a worker is to compute its colour. Otherwise nothing changes and the
    /// answer is `None`: the producer is to wait.
    pub fn try_produce(&mut self) -> (pixel: Option<Pixel>)
        requires
            old(self).wf(),
        ensures
            final(self).wf(),
            final(self)@ == old(self)@.step(Event::Produce),
            pixel is Some <==> old(self)@.can_produce(),
            pixel matches Some(p) ==> {
                &&& p.index == old(self)@.produced
                &&& p.x == pixel_x_of(p.index as int, old(self)@.width)
                &&& p.y == pixel_y_of(p.index as int, old(self)@.width)
                &&& 0 <= p.x < old(self)@.width
                &&& 0 <= p.y < old(self)@.height
                &&& p.index == p.y * old(self)@.width + p.x
            },
    {
        if self.queue.space_left() < 1 {
            return None;
        }
        let index: usize = self.produced;
        let pixel = match Pixel::at(index, self.image_width, self.image_height) {
            Some(pixel) => pixel,
            None => {
                return None;
            },
        };
        self.queue.push(PixelFuture::new(pixel.x, pixel.y));
        self.produced = index + 1;
        proof {
            assert(self@.slots =~= old(self)@.slots.push(None));
        }
        Some(pixel)
    }

    /// Completes the task of the pixel with raster index `index` with the
    /// colour `result`, where that task is queued and not yet complete.
    /// Otherwise nothing changes and the answer is `false`.
    pub fn complete(&mut self, index: usize, result: R) -> (accepted: bool)
        requires
            old(self).wf(),
        ensures
            final(self).wf(),
            final(self)@ == old(self)@.step(Event::Complete { index: index as nat, result }),
            accepted == old(self)@.can_complete(index as nat),
    {
        if index < self.delivered || index - self.delivered >= self.queue.len() {
            return false;
        }
        let offset: usize = index - self.delivered;
        let pending: bool = match self.queue.peek(offset) {
            Some(task) => task.pixel_result.is_none(),
            None => false,
        };
        if !pending {
            return false;
        }
        let (pixel_x, pixel_y) = match self.queue.peek(offset) {
            Some(task) => (task.pixel_x, task.pixel_y),
            None => (0, 0),
        };
        let _ = self.queue.replace(offset, PixelFuture { pixel_x, pixel_y, pixel_result: Some(result) });
        proof {
            assert(self@.slots =~= old(self)@.slots.update(offset as int, Some(result)));
        }
        true
    }

    /// Takes the task at the head of the queue out and returns its colour
    /// for delivery, where that task is complete. Otherwise nothing changes
    /// and the answer is `None`: the consumer is to wait, however many of the
    /// tasks behind the head are complete.
    pub fn try_consume(&mut self) -> (colour: Option<R>)
        requires
            old(self).wf(),
        ensures
            final(self).wf(),
            final(self)@ == old(self)@.step(Event::Consume),
            colour == old(self)@.output(Event::Consume),
    {
        let ready: bool = match self.queue.peek_front() {
            Some(task) => task.pixel_result.is_some(),
            None => false,
        };
        if !ready {
            return None;
        }
        let head = self.queue.pop();
        self.delivered = self.delivered + 1;
        proof {
            assert(self@.slots =~= old(self)@.slots.drop_first());
        }
        match head {
            Some(task) => task.pixel_result,
            None => None,
        }
    }
}

} // verus!
