//! A ring buffer over borrowed storage.
use vstd::prelude::*;

verus! {

/// Borrows `storage[start..end]` mutably.
///
/// This is `IndexMut<Range<usize>>` of a slice. It is trusted that the borrow covers exactly
/// those elements, that it never changes its length, that whatever is written through it ends up
/// at the same place of `storage`, and that every other element of `storage` stays as it is.
#[verifier::external_body]
pub(crate) fn subslice_mut<'b, T>(storage: &'b mut [T], start: usize, end: usize) -> (run:
    &'b mut [T])
    requires
        start <= end <= old(storage)@.len(),
    ensures
        run@ == old(storage)@.subrange(start as int, end as int),
        final(run)@.len() == run@.len(),
        final(storage)@ == overwrite(old(storage)@, start as int, final(run)@),
{
    &mut storage[start..end]
}

/// `s` with the elements from `at` on replaced by `data`.
pub open spec fn overwrite<T>(s: Seq<T>, at: int, data: Seq<T>) -> Seq<T> {
    s.subrange(0, at) + data + s.subrange(at + data.len(), s.len() as int)
}

/// The smaller of two integers.
pub open spec fn smaller(a: int, b: int) -> int {
    if a < b {
        a
    } else {
        b
    }
}

/// What a ring buffer is made of: the storage, the place of the oldest queued element in it, and
/// the number of queued elements. The queue runs on from the end of the storage to its start.
#[verifier::ext_equal]
pub struct RingView<T> {
    pub storage: Seq<T>,
    pub read_at: int,
    pub length: int,
}

impl<T> RingView<T> {
    /// Well-formedness: the queue fits the storage and starts inside of it.
    pub open spec fn wf(self) -> bool {
        &&& 0 <= self.length <= self.capacity()
        &&& 0 <= self.read_at
        &&& self.read_at < self.capacity() || (self.read_at == 0 && self.capacity() == 0)
    }

    /// The largest number of elements that can be queued.
    pub open spec fn capacity(self) -> int {
        self.storage.len() as int
    }

    /// The number of elements that can be queued in addition.
    pub open spec fn window(self) -> int {
        self.capacity() - self.length
    }

    /// The place in the storage that lies `offset` places after the oldest element.
    pub open spec fn place(self, offset: int) -> int {
        if self.read_at + offset < self.capacity() {
            self.read_at + offset
        } else {
            self.read_at + offset - self.capacity()
        }
    }

    /// The queued elements, oldest first.
    pub open spec fn queue(self) -> Seq<T> {
        Seq::new(self.length as nat, |i: int| self.storage[self.place(i)])
    }

    /// How many of the oldest elements lie next to each other in the storage.
    pub open spec fn front_len(self) -> int {
        smaller(self.length, self.capacity() - self.read_at)
    }

    /// The longest run of the oldest elements that lies in one piece.
    pub open spec fn front(self) -> Seq<T> {
        self.storage.subrange(self.read_at, self.read_at + self.front_len())
    }

    /// An empty queue moved to the start of the storage; any other queue as it is.
    pub open spec fn compact(self) -> Self {
        if self.length == 0 {
            RingView { read_at: 0, ..self }
        } else {
            self
        }
    }

    /// The place where the next element goes.
    pub open spec fn back_at(self) -> int {
        self.place(self.length)
    }

    /// How many free places lie next to each other from `back_at` on.
    pub open spec fn back_len(self) -> int {
        smaller(self.window(), self.capacity() - self.back_at())
    }

    /// The longest free run of storage that the next elements can go to.
    pub open spec fn back(self) -> Seq<T> {
        self.storage.subrange(self.back_at(), self.back_at() + self.back_len())
    }

    /// `data` written over the storage from `at` on.
    pub open spec fn write(self, at: int, data: Seq<T>) -> Self {
        RingView { storage: overwrite(self.storage, at, data), ..self }
    }

    /// The next `n` places taken into the queue.
    pub open spec fn grow(self, n: int) -> Self {
        RingView { length: self.length + n, ..self }
    }

    /// The oldest `n` elements taken off the queue.
    pub open spec fn pop(self, n: int) -> Self {
        RingView { read_at: self.place(n), length: self.length - n, ..self }
    }

    /// The queue emptied.
    pub open spec fn clear(self) -> Self {
        RingView { read_at: 0, length: 0, ..self }
    }

    /// How many of the elements of `data` there is room for.
    pub open spec fn accepted(self, data: Seq<T>) -> int {
        smaller(self.window(), data.len() as int)
    }

    /// How far the place `p` lies behind the place where the next element goes.
    pub open spec fn lag(self, p: int) -> int {
        if p >= self.back_at() {
            p - self.back_at()
        } else {
            p - self.back_at() + self.capacity()
        }
    }

    /// As much of `data` as there is room for, appended to the queue.
    pub open spec fn enqueue(self, data: Seq<T>) -> Self {
        let base = self.compact();
        RingView {
            storage: Seq::new(
                self.storage.len(),
                |p: int|
                    if base.lag(p) < self.accepted(data) {
                        data[base.lag(p)]
                    } else {
                        self.storage[p]
                    },
            ),
            read_at: base.read_at,
            length: self.length + self.accepted(data),
        }
    }

    /// The queued elements from the one at `offset` on, at most `size` of them and none beyond
    /// the end of the storage.
    pub open spec fn allocated(self, offset: int, size: int) -> Seq<T> {
        if offset > self.length {
            Seq::empty()
        } else {
            let at = self.place(offset);
            self.storage.subrange(
                at,
                at + smaller(smaller(size, self.length - offset), self.capacity() - at),
            )
        }
    }
}

/// Queueing appends: after `data` was offered, the queue is the earlier queue followed by as
/// much of `data` as there was room for, and the capacity is the same.
pub proof fn law_enqueue_appends<T>(ring: RingView<T>, data: Seq<T>)
    requires
        ring.wf(),
    ensures
        ring.enqueue(data).wf(),
        ring.enqueue(data).capacity() == ring.capacity(),
        ring.enqueue(data).queue() == ring.queue() + data.take(ring.accepted(data)),
{
    let after = ring.enqueue(data);
    let expected = ring.queue() + data.take(ring.accepted(data));
    assert(after.queue().len() == expected.len());
    assert forall|i: int| 0 <= i < expected.len() implies after.queue()[i] == expected[i] by {
        let base = ring.compact();
        let p = base.place(i);
        assert(after.place(i) == p);
        if i < ring.length {
            assert(base.lag(p) == i - ring.length + ring.capacity());
        } else {
            assert(base.lag(p) == i - ring.length);
        }
    }
    assert(after.queue() =~= expected);
}

/// Taking `n` elements off removes exactly the `n` oldest ones and keeps the order of the rest.
pub proof fn law_pop_removes_oldest<T>(ring: RingView<T>, n: int)
    requires
        ring.wf(),
        0 <= n <= ring.length,
    ensures
        ring.pop(n).wf(),
        ring.pop(n).capacity() == ring.capacity(),
        ring.pop(n).queue() == ring.queue().skip(n),
{
    assert forall|i: int| 0 <= i < ring.length - n implies ring.pop(n).queue()[i]
        == ring.queue().skip(n)[i] by {
        assert(ring.pop(n).place(i) == ring.place(n + i));
    }
    assert(ring.pop(n).queue() =~= ring.queue().skip(n));
}

/// What lies in one piece at the front of the queue is the beginning of the queue.
pub proof fn law_front_is_prefix<T>(ring: RingView<T>)
    requires
        ring.wf(),
    ensures
        ring.front().len() == ring.front_len(),
        ring.front_len() <= ring.length,
        ring.front() == ring.queue().take(ring.front_len()),
        ring.length > 0 ==> ring.front_len() > 0,
{
    assert(ring.front() =~= ring.queue().take(ring.front_len()));
}

/// Writing `run` over the front of the queue and taking its first `n` elements off leaves the
/// rest of `run`, followed by what lay behind the front.
pub proof fn law_front_is_taken_off<T>(ring: RingView<T>, run: Seq<T>, n: int)
    requires
        ring.wf(),
        run.len() == ring.front_len(),
        0 <= n <= run.len(),
    ensures
        ring.write(ring.read_at, run).pop(n).wf(),
        ring.write(ring.read_at, run).pop(n).capacity() == ring.capacity(),
        ring.write(ring.read_at, run).pop(n).queue() == run.skip(n) + ring.queue().skip(
            ring.front_len(),
        ),
{
    let written = ring.write(ring.read_at, run);
    law_pop_removes_oldest(written, n);
    assert(written.queue() =~= run + ring.queue().skip(ring.front_len()));
    assert(written.queue().skip(n) =~= run.skip(n) + ring.queue().skip(ring.front_len()));
}

/// Filling the free run at the back with `run` and taking its first `n` elements into the queue
/// appends exactly these elements.
pub proof fn law_back_appends<T>(ring: RingView<T>, run: Seq<T>, n: int)
    requires
        ring.wf(),
        run.len() == ring.compact().back_len(),
        0 <= n <= run.len(),
    ensures
        ring.compact().write(ring.compact().back_at(), run).grow(n).wf(),
        ring.compact().write(ring.compact().back_at(), run).grow(n).capacity() == ring.capacity(),
        ring.compact().write(ring.compact().back_at(), run).grow(n).queue() == ring.queue()
            + run.take(n),
{
    let base = ring.compact();
    let after = base.write(base.back_at(), run).grow(n);
    let expected = ring.queue() + run.take(n);
    assert(after.queue().len() == expected.len());
    assert forall|i: int| 0 <= i < expected.len() implies after.queue()[i] == expected[i] by {
        assert(after.place(i) == base.place(i));
    }
    assert(after.queue() =~= expected);
}

/// What `allocated` picks is a stretch of the queue: it starts at `offset`, and it is not empty
/// as long as there is an element at `offset` and `size` is not zero.
pub proof fn law_allocated_is_subrange<T>(ring: RingView<T>, offset: int, size: int)
    requires
        ring.wf(),
        0 <= offset < ring.length,
        0 <= size,
    ensures
        ring.allocated(offset, size).len() <= size,
        offset + ring.allocated(offset, size).len() <= ring.length,
        ring.allocated(offset, size) == ring.queue().subrange(
            offset,
            offset + ring.allocated(offset, size).len(),
        ),
        size > 0 ==> ring.allocated(offset, size).len() > 0,
{
    assert(ring.allocated(offset, size) =~= ring.queue().subrange(
        offset,
        offset + ring.allocated(offset, size).len(),
    ));
}

/// First in, first out: `data` that was queued into an empty buffer with room for all of it comes
/// out in the same order, and leaves the buffer empty.
pub proof fn law_first_in_first_out<T>(ring: RingView<T>, data: Seq<T>)
    requires
        ring.wf(),
        ring.length == 0,
        data.len() <= ring.capacity(),
    ensures
        ring.enqueue(data).queue() == data,
        ring.enqueue(data).pop(data.len() as int).queue() == Seq::<T>::empty(),
{
    law_enqueue_appends(ring, data);
    assert(ring.queue() + data.take(data.len() as int) =~= data);
    law_pop_removes_oldest(ring.enqueue(data), data.len() as int);
    assert(data.skip(data.len() as int) =~= Seq::<T>::empty());
}

/// Queueing two pieces, one after the other, queues what queueing both at once does.
pub proof fn law_pieces_join<T>(ring: RingView<T>, first: Seq<T>, second: Seq<T>)
    requires
        ring.wf(),
    ensures
        ring.enqueue(first).enqueue(second).queue() == ring.enqueue(first + second).queue(),
        ring.accepted(first) + ring.enqueue(first).accepted(second) == ring.accepted(
            first + second,
        ),
{
    law_enqueue_appends(ring, first);
    law_enqueue_appends(ring.enqueue(first), second);
    law_enqueue_appends(ring, first + second);
    assert(first.take(ring.accepted(first)) + second.take(ring.enqueue(first).accepted(second))
        =~= (first + second).take(ring.accepted(first + second)));
    assert(ring.enqueue(first).enqueue(second).queue() =~= ring.enqueue(first + second).queue());
}

/// What is seen of the queue without taking anything off is its beginning: as much as lies at the
/// front in one piece, and at most `size` elements. That is at least one, if there is one and
/// `size` is not zero.
pub proof fn law_peek_is_prefix<T>(ring: RingView<T>, size: int)
    requires
        ring.wf(),
        0 <= size,
    ensures
        ring.allocated(0, size).len() <= smaller(size, ring.length),
        ring.allocated(0, size) == ring.front().take(smaller(size, ring.front_len())),
        ring.allocated(0, size) == ring.queue().take(ring.allocated(0, size).len() as int),
        size > 0 && ring.length > 0 ==> ring.allocated(0, size).len() > 0,
{
    assert(ring.allocated(0, size) =~= ring.queue().take(
        ring.allocated(0, size).len() as int,
    ));
}

/// The smaller of two integers is one of them, and above none of them.
pub proof fn law_smaller_is_a_lower_bound(a: int, b: int)
    ensures
        smaller(a, b) <= a,
        smaller(a, b) <= b,
        smaller(a, b) == a || smaller(a, b) == b,
{
}

/// Every place of the storage is either in use or free, wherever the queue starts: what is queued
/// and what can still be queued add up to the length of the storage.
pub proof fn law_used_and_free_add_up<T>(ring: RingView<T>)
    ensures
        ring.capacity() == ring.storage.len(),
        ring.window() + ring.length == ring.storage.len(),
        ring.length >= 0 ==> ring.queue().len() == ring.length,
{
}

/// Two rings that agree in the length of their storage and in the number of queued elements take
/// the same number of new elements, wherever their queues start and whatever they hold.
pub proof fn law_room_does_not_depend_on_the_place<T>(
    ring: RingView<T>,
    other: RingView<T>,
    data: Seq<T>,
)
    requires
        ring.wf(),
        other.wf(),
        ring.storage.len() == other.storage.len(),
        ring.length == other.length,
    ensures
        ring.window() == other.window(),
        ring.accepted(data) == other.accepted(data),
        ring.enqueue(data).length == other.enqueue(data).length,
{
}

/// As much is accepted as there are free places, and no more than is offered. So where at least as
/// much is offered as there is room for, the queue gets as long as the storage.
pub proof fn law_room_is_used_up<T>(ring: RingView<T>, data: Seq<T>)
    requires
        ring.wf(),
    ensures
        data.len() <= ring.storage.len() - ring.length ==> ring.accepted(data) == data.len(),
        data.len() > ring.storage.len() - ring.length ==> ring.accepted(data)
            == ring.storage.len() - ring.length,
        ring.enqueue(data).length == ring.length + ring.accepted(data),
        data.len() >= ring.storage.len() - ring.length ==> ring.enqueue(data).length
            == ring.storage.len(),
{
}

/// Places that were freed are used again: after `n` elements were taken off, there is room for `n`
/// more than before.
pub proof fn law_freed_places_are_reused<T>(ring: RingView<T>, n: int, data: Seq<T>)
    requires
        ring.wf(),
        0 <= n <= ring.length,
    ensures
        ring.pop(n).window() == ring.window() + n,
        data.len() <= ring.storage.len() - ring.length + n ==> ring.pop(n).accepted(data)
            == data.len(),
        data.len() <= ring.storage.len() - ring.length + n ==> ring.pop(n).enqueue(data).queue()
            == ring.queue().skip(n) + data,
{
    law_pop_removes_oldest(ring, n);
    law_enqueue_appends(ring.pop(n), data);
    if data.len() <= ring.storage.len() - ring.length + n {
        assert(data.take(data.len() as int) =~= data);
    }
}

/// A ring is well-formed exactly if its queue is no longer than the storage and starts inside of
/// it; one without any storage starts at zero.
pub proof fn law_what_is_well_formed<T>(ring: RingView<T>)
    ensures
        ring.wf() <==> {
            &&& ring.length >= 0
            &&& ring.length <= ring.storage.len()
            &&& ring.read_at >= 0
            &&& ring.storage.len() > 0 ==> ring.read_at < ring.storage.len()
            &&& ring.storage.len() == 0 ==> ring.read_at == 0
        },
{
}

/// The storage is used in a circle: the `i`-th queued element lies `i` places after the first one,
/// counted modulo the length of the storage.
pub proof fn law_storage_is_a_circle<T>(ring: RingView<T>, i: int)
    requires
        ring.wf(),
        ring.storage.len() > 0,
        0 <= i <= ring.storage.len(),
    ensures
        ring.place(i) == (ring.read_at + i) % (ring.storage.len() as int),
        i < ring.length ==> ring.queue()[i] == ring.storage[(ring.read_at + i) % (
        ring.storage.len() as int)],
{
    let size = ring.storage.len() as int;
    let sum = ring.read_at + i;
    if sum < size {
        vstd::arithmetic::div_mod::lemma_small_mod(sum as nat, size as nat);
    } else {
        vstd::arithmetic::div_mod::lemma_small_mod((sum - size) as nat, size as nat);
        vstd::arithmetic::div_mod::lemma_mod_add_multiples_vanish(sum - size, size);
    }
}

/// What is handed out for reading is the longest beginning of the queue that lies in one piece: it
/// ends where the queue ends or where the storage ends.
pub proof fn law_front_is_longest<T>(ring: RingView<T>)
    requires
        ring.wf(),
    ensures
        ring.front() == ring.queue().take(ring.front_len()),
        ring.front_len() <= ring.length,
        ring.read_at + ring.front_len() <= ring.storage.len(),
        ring.front_len() == ring.length || ring.read_at + ring.front_len() == ring.storage.len(),
{
    law_front_is_prefix(ring);
}

/// What is handed out for writing is the longest free run behind the queue: it ends where the
/// free places end or where the storage ends. Into an empty ring the whole storage is handed out.
pub proof fn law_back_is_longest<T>(ring: RingView<T>)
    requires
        ring.wf(),
    ensures
        ring.back().len() == ring.back_len(),
        ring.back_len() <= ring.storage.len() - ring.length,
        ring.back_at() + ring.back_len() <= ring.storage.len(),
        ring.back_len() == ring.storage.len() - ring.length || ring.back_at() + ring.back_len()
            == ring.storage.len(),
        ring.length == 0 ==> ring.compact().back_len() == ring.storage.len(),
        ring.length > 0 ==> ring.compact() == ring,
        ring.storage.len() > 0 ==> ring.back_at() == (ring.read_at + ring.length) % (
        ring.storage.len() as int),
        ring.compact().wf(),
        ring.compact().queue() == ring.queue(),
        ring.compact().storage == ring.storage,
{
    if ring.storage.len() > 0 {
        law_storage_is_a_circle(ring, ring.length);
    }
    assert(ring.compact().queue() =~= ring.queue());
}

/// What a step does to the storage and to the place of the queue: emptying, taking into the queue
/// and taking off leave the storage alone, and taking off moves the place of the oldest element
/// forward by as many places as elements were taken.
pub proof fn law_steps_move_the_queue<T>(ring: RingView<T>, n: int)
    requires
        ring.wf(),
    ensures
        ring.clear().storage == ring.storage,
        ring.clear().length == 0,
        ring.clear().read_at == 0,
        ring.grow(n).storage == ring.storage,
        ring.grow(n).length == ring.length + n,
        ring.grow(n).read_at == ring.read_at,
        ring.pop(n).storage == ring.storage,
        ring.pop(n).length == ring.length - n,
        0 <= n <= ring.length && ring.storage.len() > 0 ==> ring.pop(n).read_at == (ring.read_at
            + n) % (ring.storage.len() as int),
        0 <= n <= ring.length && ring.storage.len() == 0 ==> ring.pop(n).read_at == 0,
{
    if 0 <= n <= ring.length && ring.storage.len() > 0 {
        law_storage_is_a_circle(ring, n);
    }
}

/// Queueing puts new elements behind the queue only: the queue starts where it did, or at the
/// start of the storage if it was empty, and no place changes that is not taken into the queue.
pub proof fn law_enqueue_writes_behind_the_queue<T>(ring: RingView<T>, data: Seq<T>)
    requires
        ring.wf(),
    ensures
        ring.enqueue(data).storage.len() == ring.storage.len(),
        ring.length > 0 ==> ring.enqueue(data).read_at == ring.read_at,
        ring.length == 0 ==> ring.enqueue(data).read_at == 0,
        data.len() == 0 ==> ring.enqueue(data).storage == ring.storage,
        ring.length == ring.storage.len() ==> ring.enqueue(data).storage == ring.storage,
        forall|i: int|
            #![trigger ring.enqueue(data).place(i)]
            ring.enqueue(data).length <= i < ring.storage.len() ==> ring.enqueue(data).storage[
            ring.enqueue(data).place(i)] == ring.storage[ring.enqueue(data).place(i)],
{
    if data.len() == 0 || ring.length == ring.storage.len() {
        assert(ring.enqueue(data).storage =~= ring.storage);
    }
}

/// Writing over a sequence changes the elements from `at` on, as many as are written, and no other.
pub proof fn law_overwrite_is_local<T>(ring: RingView<T>, at: int, data: Seq<T>)
    requires
        0 <= at <= at + data.len() <= ring.storage.len(),
    ensures
        ring.write(at, data).length == ring.length,
        ring.write(at, data).read_at == ring.read_at,
        ring.write(at, data).storage == overwrite(ring.storage, at, data),
        overwrite(ring.storage, at, data).len() == ring.storage.len(),
        forall|i: int|
            0 <= i < data.len() ==> #[trigger] overwrite(ring.storage, at, data)[at + i]
                == data[i],
        forall|i: int|
            0 <= i < ring.storage.len() && !(at <= i < at + data.len())
                ==> #[trigger] overwrite(ring.storage, at, data)[i] == ring.storage[i],
{
}

/// What is looked at from `offset` on is the longest stretch of the queue from there that lies in
/// one piece, up to `size` elements: it ends after `size` elements, where the queue ends or where
/// the storage ends. Behind the queue there is nothing to look at.
pub proof fn law_allocated_is_longest<T>(ring: RingView<T>, offset: int, size: int)
    requires
        ring.wf(),
        0 <= offset,
        0 <= size,
    ensures
        offset > ring.length ==> ring.allocated(offset, size).len() == 0,
        offset <= ring.length ==> {
            let run = ring.allocated(offset, size);
            &&& run == ring.queue().subrange(offset, offset + run.len())
            &&& run.len() <= size
            &&& offset + run.len() <= ring.length
            &&& run.len() == size || offset + run.len() == ring.length || (ring.read_at + offset
                + run.len()) % (ring.storage.len() as int) == 0
        },
{
    if offset <= ring.length {
        let run = ring.allocated(offset, size);
        assert(run =~= ring.queue().subrange(offset, offset + run.len()));
        if ring.storage.len() > 0 && run.len() < size && offset + run.len() < ring.length {
            let total = ring.storage.len() as int;
            let end = ring.read_at + offset + run.len();
            assert(ring.place(offset) + run.len() == total);
            assert(end == total || end == 2 * total);
            assert(end % total == 0) by (nonlinear_arith)
                requires
                    total > 0,
                    end == total || end == 2 * total,
            ;
        }
    }
}

/// A ring buffer.
///
/// The storage is borrowed, and its length is the capacity of the buffer.
#[derive(Debug)]
pub struct RingBuffer<'a, T> {
    storage: &'a mut [T],
    read_at: usize,
    length: usize,
}

impl<'a, T> View for RingBuffer<'a, T> {
    type V = RingView<T>;

    closed spec fn view(&self) -> RingView<T> {
        RingView {
            storage: self.storage@,
            read_at: self.read_at as int,
            length: self.length as int,
        }
    }
}

/// The view of a ring buffer shows its storage, the place of its queue and its length as they are.
proof fn law_view_shows_every_field<'a, T>(ring: RingBuffer<'a, T>)
    ensures
        ring@.storage == old(ring.storage)@,
        ring@.read_at == ring.read_at,
        ring@.length == ring.length,
{
}

impl<'a, T> RingBuffer<'a, T> {
    /// Create an empty ring buffer with the given storage.
    pub fn new(storage: &'a mut [T]) -> (ring: RingBuffer<'a, T>)
        ensures
            ring@ == (RingView { storage: old(storage)@, read_at: 0, length: 0 }),
            ring@.wf(),
    {
        RingBuffer { storage, read_at: 0, length: 0 }
    }

    /// Empty the ring buffer.
    pub fn clear(&mut self)
        ensures
            final(self)@ == old(self)@.clear(),
            final(self)@.wf(),
    {
        self.read_at = 0;
        self.length = 0;
    }

    /// Return the largest number of elements in the ring buffer.
    pub fn capacity(&self) -> (n: usize)
        ensures
            n == self@.capacity(),
    {
        self.storage.len()
    }

    /// Return the number of elements in the ring buffer.
    pub fn len(&self) -> (n: usize)
        ensures
            n == self@.length,
    {
        self.length
    }

    /// Return the number of elements that can be added to the ring buffer.
    pub fn window(&self) -> (n: usize)
        requires
            self@.wf(),
        ensures
            n == self@.window(),
            n + self@.length == self@.storage.len(),
    {
        self.capacity() - self.len()
    }

    /// Return the largest number of elements that can be added to the ring buffer without
    /// wrapping around.
    pub fn contiguous_window(&self) -> (n: usize)
        requires
            self@.wf(),
        ensures
            n == self@.back_len(),
    {
        let window: usize = self.window();
        let until_end: usize = self.capacity() - self.index_of(self.length);
        if window < until_end {
            window
        } else {
            until_end
        }
    }

    /// Query whether the buffer is empty.
    pub fn is_empty(&self) -> (b: bool)
        ensures
            b == (self@.length == 0),
    {
        self.len() == 0
    }

    /// Query whether the buffer is full.
    pub fn is_full(&self) -> (b: bool)
        requires
            self@.wf(),
        ensures
            b == (self@.length == self@.capacity()),
    {
        self.window() == 0
    }

    /// The index into the storage of what lies `offset` places after the oldest element.
    fn index_of(&self, offset: usize) -> (index: usize)
        requires
            self@.wf(),
            offset <= self@.capacity(),
        ensures
            index == self@.place(offset as int),
    {
        let until_end: usize = self.capacity() - self.read_at;
        if offset < until_end {
            self.read_at + offset
        } else {
            offset - until_end
        }
    }

    /// Call `f` with the largest contiguous slice of unallocated elements, and enqueue the
    /// number of elements returned by `f`.
    pub fn enqueue_many_with<'b, R, F>(&'b mut self, f: F) -> (ret: (usize, R)) where
        F: FnOnce(&'b mut [T]) -> (usize, R),

        requires
            old(self)@.wf(),
            forall|run: &'b mut [T]| run@ == old(self)@.compact().back() ==> f.requires((run,)),
            forall|run: &'b mut [T], r: (usize, R)|
                run@ == old(self)@.compact().back() && f.ensures((run,), r) ==> r.0 <= run@.len(),
        ensures
            final(self)@.wf(),
            exists|run: &'b mut [T]|
                {
                    let base = old(self)@.compact();
                    &&& #[trigger] f.ensures((run,), ret)
                    &&& run@ == base.back()
                    &&& final(run)@.len() == run@.len()
                    &&& ret.0 <= run@.len()
                    &&& final(self)@ == base.write(base.back_at(), final(run)@).grow(ret.0 as int)
                    &&& final(self)@.queue() == old(self)@.queue() + final(run)@.take(
                        ret.0 as int,
                    )
                },
    {
        if self.length == 0 {
            self.read_at = 0;
        }
        let capacity: usize = self.capacity();
        let write_at: usize = self.index_of(self.length);
        let max_size: usize = self.contiguous_window();
        let run = subslice_mut(self.storage, write_at, write_at + max_size);
        let ghost written = final(run)@;
        let ret = f(run);
        proof {
            law_back_appends(old(self)@, written, ret.0 as int);
        }
        self.length = self.length + ret.0;
        ret
    }

    /// Enqueue as many elements from the given slice as there is room for, and return their
    /// number.
    pub fn enqueue_slice(&mut self, data: &[T]) -> (n: usize) where T: Copy
        requires
            old(self)@.wf(),
        ensures
            n == old(self)@.accepted(data@),
            final(self)@ == old(self)@.enqueue(data@),
            final(self)@.wf(),
            final(self)@.queue() == old(self)@.queue() + data@.take(n as int),
    {
        if self.length == 0 {
            self.read_at = 0;
        }
        let ghost base = self@;
        let capacity: usize = self.capacity();
        let window: usize = self.window();
        let n: usize = if window < data.len() {
            window
        } else {
            data.len()
        };
        let mut i: usize = 0;
        while i < n
            invariant
                base == old(self)@.compact(),
                base.wf(),
                n == old(self)@.accepted(data@),
                i <= n <= data@.len(),
                base.capacity() == capacity,
                self@.read_at == base.read_at,
                self@.length == base.length,
                self@.capacity() == base.capacity(),
                forall|p: int|
                    0 <= p < base.capacity() ==> #[trigger] self@.storage[p] == (if base.lag(p)
                        < i {
                        data@[base.lag(p)]
                    } else {
                        old(self)@.storage[p]
                    }),
            decreases n - i,
        {
            let at: usize = self.index_of(self.length + i);
            self.storage[at] = data[i];
            i = i + 1;
        }
        self.length = self.length + n;
        proof {
            law_enqueue_appends(old(self)@, data@);
        }
        n
    }

    /// Call `f` with the largest contiguous slice of allocated elements, and dequeue the number
    /// of elements returned by `f`.
    pub fn dequeue_many_with<'b, R, F>(&'b mut self, f: F) -> (ret: (usize, R)) where
        F: FnOnce(&'b mut [T]) -> (usize, R),

        requires
            old(self)@.wf(),
            forall|run: &'b mut [T]| run@ == old(self)@.front() ==> f.requires((run,)),
            forall|run: &'b mut [T], r: (usize, R)|
                run@ == old(self)@.front() && f.ensures((run,), r) ==> r.0 <= run@.len(),
        ensures
            final(self)@.wf(),
            exists|run: &'b mut [T]|
                {
                    &&& #[trigger] f.ensures((run,), ret)
                    &&& run@ == old(self)@.front()
                    &&& final(run)@.len() == run@.len()
                    &&& ret.0 <= run@.len()
                    &&& final(self)@ == old(self)@.write(old(self)@.read_at, final(run)@).pop(
                        ret.0 as int,
                    )
                    &&& final(self)@.queue() == final(run)@.skip(ret.0 as int) + old(
                        self,
                    )@.queue().skip(old(self)@.front_len())
                },
    {
        let until_end: usize = self.capacity() - self.read_at;
        let max_size: usize = if self.length < until_end {
            self.length
        } else {
            until_end
        };
        let read_at: usize = self.read_at;
        let run = subslice_mut(self.storage, read_at, read_at + max_size);
        let ghost written = final(run)@;
        let ret = f(run);
        proof {
            law_front_is_taken_off(old(self)@, written, ret.0 as int);
        }
        self.read_at = if ret.0 < until_end {
            read_at + ret.0
        } else {
            ret.0 - until_end
        };
        self.length = self.length - ret.0;
        ret
    }

    /// Dequeue as many elements as there are into the given slice, at most as many as it holds,
    /// and return their number.
    pub fn dequeue_slice(&mut self, data: &mut [T]) -> (n: usize) where T: Copy
        requires
            old(self)@.wf(),
        ensures
            n == smaller(old(self)@.length, old(data)@.len() as int),
            final(data)@ == old(self)@.queue().take(n as int) + old(data)@.skip(n as int),
            final(self)@ == old(self)@.pop(n as int),
            final(self)@.wf(),
            final(self)@.queue() == old(self)@.queue().skip(n as int),
    {
        let n: usize = self.peek_slice(data);
        self.read_at = self.index_of(n);
        self.length = self.length - n;
        proof {
            law_pop_removes_oldest(old(self)@, n as int);
        }
        n
    }

    /// Copy as many of the oldest elements as there are into the given slice, at most as many as it
    /// holds, and return their number. The elements stay in the buffer.
    pub fn peek_slice(&self, data: &mut [T]) -> (n: usize) where T: Copy
        requires
            self@.wf(),
        ensures
            n == smaller(self@.length, old(data)@.len() as int),
            final(data)@ == self@.queue().take(n as int) + old(data)@.skip(n as int),
    {
        let n: usize = if self.length < data.len() {
            self.length
        } else {
            data.len()
        };
        let mut i: usize = 0;
        while i < n
            invariant
                self@.wf(),
                i <= n <= data@.len(),
                n <= self@.length,
                data@ == self@.queue().take(i as int) + old(data)@.skip(i as int),
                data@.len() == old(data)@.len(),
            decreases n - i,
        {
            let at: usize = self.index_of(i);
            data[i] = self.storage[at];
            i = i + 1;
            assert(data@ =~= self@.queue().take(i as int) + old(data)@.skip(i as int));
        }
        n
    }

    /// Return the largest contiguous slice of allocated elements, for writing.
    pub fn front_mut<'b>(&'b mut self) -> (run: &'b mut [T])
        requires
            old(self)@.wf(),
        ensures
            run@ == old(self)@.front(),
            final(run)@.len() == run@.len(),
            final(self)@ == old(self)@.write(old(self)@.read_at, final(run)@),
    {
        let until_end: usize = self.capacity() - self.read_at;
        let max_size: usize = if self.length < until_end {
            self.length
        } else {
            until_end
        };
        subslice_mut(self.storage, self.read_at, self.read_at + max_size)
    }

    /// Dequeue `n` elements, and drop them.
    pub fn advance(&mut self, n: usize)
        requires
            old(self)@.wf(),
            n <= old(self)@.length,
        ensures
            final(self)@ == old(self)@.pop(n as int),
            final(self)@.wf(),
    {
        self.read_at = self.index_of(n);
        self.length = self.length - n;
    }

    /// Return the largest contiguous slice of allocated elements that starts at `offset` past
    /// the oldest one, at most `size` elements long.
    pub fn get_allocated(&self, offset: usize, size: usize) -> (run: &[T])
        requires
            self@.wf(),
        ensures
            run@ == self@.allocated(offset as int, size as int),
    {
        if offset > self.length {
            return vstd::slice::slice_subrange(self.storage, 0, 0);
        }
        let start_at: usize = self.index_of(offset);
        let allocated: usize = self.length - offset;
        let until_end: usize = self.capacity() - start_at;
        let wanted: usize = if size < allocated {
            size
        } else {
            allocated
        };
        let max_size: usize = if wanted < until_end {
            wanted
        } else {
            until_end
        };
        vstd::slice::slice_subrange(self.storage, start_at, start_at + max_size)
    }
}

impl<'a, T> From<&'a mut [T]> for RingBuffer<'a, T> {
    fn from(storage: &'a mut [T]) -> (ring: Self)
        ensures
            ring@ == (RingView { storage: old(storage)@, read_at: 0, length: 0 }),
            ring@.wf(),
    {
        RingBuffer::new(storage)
    }
}

/// The buffer borrows `storage` anew, and the two borrows are not the same value. What `from`
/// gives is therefore said by the contract of `from` itself, over the views.
impl<'a, T> vstd::std_specs::convert::FromSpecImpl<&'a mut [T]> for RingBuffer<'a, T> {
    open spec fn obeys_from_spec() -> bool {
        false
    }

    closed spec fn from_spec(storage: &'a mut [T]) -> Self {
        RingBuffer { storage, read_at: 0, length: 0 }
    }
}

} // verus!
