//! Sets of sockets.
use vstd::prelude::*;
use vstd::std_specs::iter::IteratorSpec;

use crate::meta::Meta;
use crate::{AnySocket, Socket};

verus! {

/// A handle, identifying a socket in a set.
#[derive(Debug, Clone, Copy, PartialEq, Eq, PartialOrd, Ord, Hash, Structural)]
pub struct SocketHandle(pub u8);

impl Default for SocketHandle {
    fn default() -> (handle: SocketHandle)
        ensures
            handle == SocketHandle(0),
    {
        SocketHandle(0)
    }
}

/// A handle, identifying the peer of a connection.
#[derive(Debug, Clone, Copy, PartialEq, Eq, PartialOrd, Ord, Hash, Structural)]
pub struct PeerHandle(pub u8);

impl Default for PeerHandle {
    fn default() -> (handle: PeerHandle)
        ensures
            handle == PeerHandle(0),
    {
        PeerHandle(0)
    }
}

/// The number of a channel in extended data mode.
#[derive(Debug, Clone, Copy, PartialEq, Eq, PartialOrd, Ord, Hash, Structural)]
pub struct ChannelId(pub u8);

impl Default for ChannelId {
    fn default() -> (channel: ChannelId)
        ensures
            channel == ChannelId(0),
    {
        ChannelId(0)
    }
}

/// An item of a socket set.
#[derive(Debug)]
struct Item<'a> {
    meta: Meta,
    socket: Socket<'a>,
}

/// What a slot of a socket set holds: a socket, and the handle that it was given.
pub struct Entry<'a> {
    pub handle: SocketHandle,
    pub socket: Socket<'a>,
}

/// Room for one socket of a set.
#[derive(Debug)]
pub struct SocketStorage<'a> {
    inner: Option<Item<'a>>,
}

impl<'a> View for SocketStorage<'a> {
    type V = Option<Entry<'a>>;

    /// The socket that is stored here, if any, with the handle it was given.
    closed spec fn view(&self) -> Option<Entry<'a>> {
        match self.inner {
            Some(item) => Some(Entry { handle: item.meta.handle, socket: item.socket }),
            None => None,
        }
    }
}

/// The view of a storage shows the socket that it holds and its handle.
proof fn law_view_shows_the_item<'a>(storage: SocketStorage<'a>)
    ensures
        storage.inner is None ==> storage@ is None,
        storage.inner matches Some(item) ==> storage@ == Some(
            Entry { handle: item.meta.handle, socket: item.socket },
        ),
{
}

impl<'a> SocketStorage<'a> {
    /// Create a storage without a socket.
    pub fn empty() -> (storage: SocketStorage<'a>)
        ensures
            storage@ is None,
    {
        SocketStorage { inner: None }
    }
}

impl<'a> Default for SocketStorage<'a> {
    fn default() -> (storage: SocketStorage<'a>)
        ensures
            storage@ is None,
    {
        SocketStorage::empty()
    }
}

/// Whether the slot `i` is the first one without a socket.
pub open spec fn is_first_free<'a>(slots: Seq<Option<Entry<'a>>>, i: int) -> bool {
    &&& 0 <= i < slots.len()
    &&& slots[i] is None
    &&& forall|j: int| 0 <= j < i ==> (#[trigger] slots[j]) is Some
}

/// Whether there is a slot without a socket.
pub open spec fn has_room<'a>(slots: Seq<Option<Entry<'a>>>) -> bool {
    exists|i: int| 0 <= i < slots.len() && (#[trigger] slots[i]) is None
}

/// Whether `handle` refers to a socket in these slots.
pub open spec fn refers<'a>(
    slots: Seq<Option<Entry<'a>>>,
    handle: SocketHandle,
) -> bool {
    handle.0 < slots.len() && slots[handle.0 as int] is Some
}

/// The sockets in these slots, with their handles, in the order of the slots.
pub open spec fn entries<'a>(slots: Seq<Option<Entry<'a>>>) -> Seq<Entry<'a>>
    decreases slots.len(),
{
    if slots.len() == 0 {
        Seq::empty()
    } else {
        match slots.last() {
            Some(entry) => entries(slots.drop_last()).push(entry),
            None => entries(slots.drop_last()),
        }
    }
}

/// These slots, with the `k`-th of the sockets in them replaced by `sockets[k]`.
pub open spec fn with_sockets<'a>(slots: Seq<Option<Entry<'a>>>, sockets: Seq<Socket<'a>>) -> Seq<
    Option<Entry<'a>>,
>
    decreases slots.len(),
{
    if slots.len() == 0 {
        Seq::empty()
    } else {
        match slots.last() {
            Some(entry) => with_sockets(slots.drop_last(), sockets.drop_last()).push(
                Some(Entry { socket: sockets.last(), ..entry }),
            ),
            None => with_sockets(slots.drop_last(), sockets).push(None),
        }
    }
}

/// Whether every socket has the handle that its slot gives it.
pub open spec fn numbered<'a>(slots: Seq<Option<Entry<'a>>>) -> bool {
    forall|i: int|
        #![trigger slots[i]]
        0 <= i < slots.len() && slots[i] is Some ==> slots[i]->0.handle == slot_handle(i)
}

/// The handle of a socket in the slot `i`: handles count modulo 256.
pub open spec fn slot_handle(i: int) -> SocketHandle {
    SocketHandle((i % 256) as u8)
}

/// These slots, with `socket` put into the slot `i`.
pub open spec fn with_added<'a>(
    slots: Seq<Option<Entry<'a>>>,
    i: int,
    socket: Socket<'a>,
) -> Seq<Option<Entry<'a>>> {
    slots.update(i, Some(Entry { handle: slot_handle(i), socket }))
}

/// These slots, with the one that `handle` refers to emptied.
pub open spec fn with_removed<'a>(
    slots: Seq<Option<Entry<'a>>>,
    handle: SocketHandle,
) -> Seq<Option<Entry<'a>>> {
    slots.update(handle.0 as int, None)
}

/// There is a first free slot exactly where there is room, and only one. So where a socket goes
/// is determined.
pub proof fn law_first_free_slot<'a>(slots: Seq<Option<Entry<'a>>>)
    ensures
        has_room(slots) <==> exists|i: int| #[trigger] is_first_free(slots, i),
        forall|i: int, j: int|
            #[trigger] is_first_free(slots, i) && #[trigger] is_first_free(slots, j) ==> i == j,
    decreases slots.len(),
{
    if has_room(slots) {
        let last = slots.len() - 1;
        let rest = slots.drop_last();
        law_first_free_slot(rest);
        if has_room(rest) {
            let i = choose|i: int| #[trigger] is_first_free(rest, i);
            assert forall|j: int| 0 <= j < i implies (#[trigger] slots[j]) is Some by {
                assert(rest[j] == slots[j]);
            }
            assert(is_first_free(slots, i));
        } else {
            assert forall|j: int| 0 <= j < last implies (#[trigger] slots[j]) is Some by {
                assert(rest[j] == slots[j]);
            }
            assert(is_first_free(slots, last));
        }
    }
}

/// A socket that was added is found under its handle, with its own type, and every other slot
/// stays as it was. This holds as long as a handle can number the slot.
pub proof fn law_added_is_found<'a, T: AnySocket<'a>>(
    slots: Seq<Option<Entry<'a>>>,
    i: int,
    socket: T,
)
    requires
        is_first_free(slots, i),
        i < 256,
    ensures
        slot_handle(i).0 == i,
        !refers(slots, slot_handle(i)),
        refers(with_added(slots, i, socket.upcasted()), slot_handle(i)),
        T::downcasted(
            with_added(slots, i, socket.upcasted())[slot_handle(i).0 as int]->0.socket,
        ) == Some(socket),
        forall|j: int|
            0 <= j < slots.len() && j != i ==> #[trigger] with_added(
                slots,
                i,
                socket.upcasted(),
            )[j] == slots[j],
{
    socket.law_casts_are_inverse(socket.upcasted());
}

/// Removing a socket right after it was added gives the same set back, and the socket.
pub proof fn law_remove_undoes_add<'a>(slots: Seq<Option<Entry<'a>>>, i: int, socket: Socket<'a>)
    requires
        is_first_free(slots, i),
        i < 256,
    ensures
        refers(with_added(slots, i, socket), slot_handle(i)),
        with_added(slots, i, socket)[slot_handle(i).0 as int]->0.socket == socket,
        with_removed(with_added(slots, i, socket), slot_handle(i)) == slots,
{
    assert(with_removed(with_added(slots, i, socket), slot_handle(i)) =~= slots);
}

/// A removed socket is no longer found, the others still are, and if all slots before its slot
/// are in use the next socket goes into its slot and gets its handle.
pub proof fn law_removed_slot_is_reused<'a>(slots: Seq<Option<Entry<'a>>>, handle: SocketHandle)
    requires
        refers(slots, handle),
    ensures
        !refers(with_removed(slots, handle), handle),
        has_room(with_removed(slots, handle)),
        forall|other: SocketHandle|
            other != handle ==> (#[trigger] refers(with_removed(slots, handle), other) <==> refers(
                slots,
                other,
            )),
        (forall|j: int| 0 <= j < handle.0 ==> (#[trigger] slots[j]) is Some) ==> is_first_free(
            with_removed(slots, handle),
            handle.0 as int,
        ) && slot_handle(handle.0 as int) == handle,
{
    assert(with_removed(slots, handle)[handle.0 as int] is None);
}

/// Every socket of a set is listed, and nothing else is.
pub proof fn law_every_socket_is_listed<'a>(slots: Seq<Option<Entry<'a>>>, entry: Entry<'a>)
    ensures
        entries(slots).contains(entry) <==> slots.contains(Some(entry)),
        entries(slots).len() <= slots.len(),
    decreases slots.len(),
{
    if slots.len() > 0 {
        let rest = slots.drop_last();
        law_every_socket_is_listed(rest, entry);
        if rest.contains(Some(entry)) {
            let i = choose|i: int| 0 <= i < rest.len() && rest[i] == Some(entry);
            assert(slots[i] == Some(entry));
        }
        if slots.last() == Some(entry) {
            assert(entries(slots).last() == entry);
        }
        if entries(rest).contains(entry) {
            let k = choose|k: int| 0 <= k < entries(rest).len() && entries(rest)[k] == entry;
            assert(entries(slots)[k] == entry);
        }
        if entries(slots).contains(entry) && slots.last() != Some(entry) {
            let k = choose|k: int| 0 <= k < entries(slots).len() && entries(slots)[k] == entry;
            assert(entries(rest)[k] == entry);
        }
        if slots.contains(Some(entry)) && slots.last() != Some(entry) {
            let i = choose|i: int| 0 <= i < slots.len() && slots[i] == Some(entry);
            assert(rest[i] == Some(entry));
        }
    }
}

/// Adding a socket makes one more, and it is listed at the place of its slot.
pub proof fn law_add_counts_one<'a>(slots: Seq<Option<Entry<'a>>>, i: int, entry: Entry<'a>)
    requires
        0 <= i < slots.len(),
        slots[i] is None,
    ensures
        entries(slots.update(i, Some(entry))).len() == entries(slots).len() + 1,
        entries(slots.update(i, Some(entry))) == entries(slots.take(i)).push(entry) + entries(
            slots.skip(i + 1),
        ),
        entries(slots) == entries(slots.take(i)) + entries(slots.skip(i + 1)),
{
    lemma_entries_around(slots, i);
    let after = slots.update(i, Some(entry));
    lemma_entries_around(after, i);
    assert(after.take(i) =~= slots.take(i));
    assert(after.skip(i + 1) =~= slots.skip(i + 1));
}

/// Removing a socket makes one less.
pub proof fn law_remove_counts_one<'a>(slots: Seq<Option<Entry<'a>>>, handle: SocketHandle)
    requires
        refers(slots, handle),
    ensures
        entries(with_removed(slots, handle)).len() + 1 == entries(slots).len(),
{
    let i = handle.0 as int;
    law_add_counts_one(with_removed(slots, handle), i, slots[i]->0);
    assert(with_removed(slots, handle).update(i, slots[i]) =~= slots);
}

/// What is listed of all slots is what is listed of those before `i`, of `i` and of those after.
proof fn lemma_entries_around<'a>(slots: Seq<Option<Entry<'a>>>, i: int)
    requires
        0 <= i < slots.len(),
    ensures
        entries(slots) == (match slots[i] {
            Some(entry) => entries(slots.take(i)).push(entry),
            None => entries(slots.take(i)),
        }) + entries(slots.skip(i + 1)),
    decreases slots.len(),
{
    let last = slots.len() - 1;
    if i == last {
        assert(slots.drop_last() =~= slots.take(i));
        assert(slots.skip(i + 1) =~= Seq::<Option<Entry<'a>>>::empty());
    } else {
        lemma_entries_around(slots.drop_last(), i);
        assert(slots.drop_last().take(i) =~= slots.take(i));
        assert(slots.drop_last().skip(i + 1) =~= slots.skip(i + 1).drop_last());
        assert(slots.skip(i + 1).last() == slots.last());
    }
}

/// Sockets keep the handles that their slots give them: it holds of empty slots, and adding,
/// removing and changing sockets keep it.
pub proof fn law_handles_stay<'a>(
    slots: Seq<Option<Entry<'a>>>,
    i: int,
    handle: SocketHandle,
    socket: Socket<'a>,
)
    ensures
        (forall|j: int| 0 <= j < slots.len() ==> (#[trigger] slots[j]) is None) ==> numbered(slots),
        numbered(slots) && 0 <= i < slots.len() ==> numbered(with_added(slots, i, socket)),
        numbered(slots) && refers(slots, handle) ==> numbered(with_removed(slots, handle)),
        numbered(slots) && refers(slots, handle) ==> numbered(
            slots.update(
                handle.0 as int,
                Some(Entry { socket, ..slots[handle.0 as int]->0 }),
            ),
        ),
{
}

/// In a set of at most 256 slots whose sockets have the handles that their slots give them, the
/// handle of a socket refers to this socket, and two sockets never have the same handle.
pub proof fn law_handles_tell_sockets_apart<'a>(slots: Seq<Option<Entry<'a>>>, i: int, j: int)
    requires
        numbered(slots),
        slots.len() <= 256,
        0 <= i < slots.len(),
        0 <= j < slots.len(),
        slots[i] is Some,
        slots[j] is Some,
    ensures
        refers(slots, slots[i]->0.handle),
        slots[slots[i]->0.handle.0 as int] == slots[i],
        slots[i]->0.handle == slots[j]->0.handle ==> i == j,
{
    assert(slots[i]->0.handle == slot_handle(i));
    assert(slots[j]->0.handle == slot_handle(j));
}

/// Walking through the sockets of a set for writing neither adds nor removes one, and changes no
/// handle.
pub proof fn law_writing_keeps_the_slots<'a>(
    slots: Seq<Option<Entry<'a>>>,
    sockets: Seq<Socket<'a>>,
)
    requires
        sockets.len() == entries(slots).len(),
    ensures
        with_sockets(slots, sockets).len() == slots.len(),
        forall|i: int|
            0 <= i < slots.len() ==> {
                &&& (#[trigger] with_sockets(slots, sockets)[i]) is Some <==> slots[i] is Some
                &&& slots[i] is Some ==> with_sockets(slots, sockets)[i]->0.handle
                    == slots[i]->0.handle
            },
        entries(with_sockets(slots, sockets)).map_values(|entry: Entry<'a>| entry.socket)
            == sockets,
        numbered(slots) ==> numbered(with_sockets(slots, sockets)),
    decreases slots.len(),
{
    let after = with_sockets(slots, sockets);
    if slots.len() > 0 {
        let rest = slots.drop_last();
        match slots.last() {
            Some(_) => {
                law_writing_keeps_the_slots(rest, sockets.drop_last());
                assert(after.drop_last() =~= with_sockets(rest, sockets.drop_last()));
                assert(sockets =~= sockets.drop_last().push(sockets.last()));
            },
            None => {
                law_writing_keeps_the_slots(rest, sockets);
                assert(after.drop_last() =~= with_sockets(rest, sockets));
            },
        }
    }
    assert(entries(after).map_values(|entry: Entry<'a>| entry.socket) =~= sockets);
}

/// Walking through the sockets of a set without writing anything leaves the set as it was.
pub proof fn law_writing_nothing_keeps_the_set<'a>(slots: Seq<Option<Entry<'a>>>)
    ensures
        with_sockets(
            slots,
            entries(slots).map_values(|entry: Entry<'a>| entry.socket),
        ) == slots,
    decreases slots.len(),
{
    if slots.len() > 0 {
        let rest = slots.drop_last();
        law_writing_nothing_keeps_the_set(rest);
        let sockets = entries(slots).map_values(|entry: Entry<'a>| entry.socket);
        if slots.last() is Some {
            assert(sockets.drop_last() =~= entries(rest).map_values(
                |entry: Entry<'a>| entry.socket,
            ));
        }
        assert(slots =~= rest.push(slots.last()));
    }
}

/// A set has room exactly if not every slot is in use, wherever the free slot is.
pub proof fn law_full_set_has_no_room<'a>(slots: Seq<Option<Entry<'a>>>)
    ensures
        !has_room(slots) <==> forall|i: int| 0 <= i < slots.len() ==> (#[trigger] slots[i]) is Some,
{
}

/// The first free slot is the lowest one of those that are free.
pub proof fn law_first_free_is_lowest<'a>(slots: Seq<Option<Entry<'a>>>, i: int)
    ensures
        is_first_free(slots, i) <==> {
            &&& 0 <= i < slots.len()
            &&& slots[i] is None
            &&& forall|j: int|
                0 <= j < slots.len() && (#[trigger] slots[j]) is None ==> i <= j
        },
{
}

/// A handle refers to a socket exactly if the slot with its number is in use.
pub proof fn law_handle_is_a_slot_number<'a>(slots: Seq<Option<Entry<'a>>>, handle: SocketHandle)
    ensures
        refers(slots, handle) <==> exists|i: int|
            0 <= i < slots.len() && i == handle.0 && (#[trigger] slots[i]) is Some,
{
    if refers(slots, handle) {
        assert(slots[handle.0 as int] is Some);
    }
}

/// The handle of a slot is its number, counted modulo 256.
pub proof fn law_slots_are_numbered(i: int)
    requires
        0 <= i,
    ensures
        slot_handle(i).0 == i % 256,
        slot_handle(i + 256) == slot_handle(i),
        i < 256 ==> slot_handle(i).0 == i,
{
}

/// Adding fills one slot and removing empties one. All other slots stay, and there are as many as
/// before.
pub proof fn law_one_slot_changes<'a>(
    slots: Seq<Option<Entry<'a>>>,
    i: int,
    socket: Socket<'a>,
    handle: SocketHandle,
)
    ensures
        0 <= i < slots.len() ==> {
            let after = with_added(slots, i, socket);
            &&& after.len() == slots.len()
            &&& after[i] == Some(Entry { handle: slot_handle(i), socket })
            &&& forall|j: int| 0 <= j < slots.len() && j != i ==> #[trigger] after[j] == slots[j]
        },
        handle.0 < slots.len() ==> {
            let after = with_removed(slots, handle);
            &&& after.len() == slots.len()
            &&& after[handle.0 as int] is None
            &&& forall|j: int|
                0 <= j < slots.len() && j != handle.0 ==> #[trigger] after[j] == slots[j]
        },
{
}

/// Listing the sockets of two groups of slots, one after the other, lists those of all of them in
/// the order of the slots. A slot alone lists what it holds.
pub proof fn law_listing_follows_the_slots<'a>(
    first: Seq<Option<Entry<'a>>>,
    second: Seq<Option<Entry<'a>>>,
    entry: Entry<'a>,
)
    ensures
        entries(first + second) == entries(first) + entries(second),
        entries(Seq::<Option<Entry<'a>>>::empty()) == Seq::<Entry<'a>>::empty(),
        entries(seq![None::<Entry<'a>>]) == Seq::<Entry<'a>>::empty(),
        entries(seq![Some(entry)]) == seq![entry],
    decreases second.len(),
{
    reveal_with_fuel(entries, 3);
    assert(seq![None::<Entry<'a>>].drop_last() =~= Seq::<Option<Entry<'a>>>::empty());
    assert(seq![Some(entry)].drop_last() =~= Seq::<Option<Entry<'a>>>::empty());
    assert(entries(seq![Some(entry)]) =~= seq![entry]);
    if second.len() == 0 {
        assert(first + second =~= first);
        assert(entries(first) + entries(second) =~= entries(first));
    } else {
        law_listing_follows_the_slots(first, second.drop_last(), entry);
        assert((first + second).drop_last() =~= first + second.drop_last());
        assert((first + second).last() == second.last());
        assert(entries(first + second) =~= entries(first) + entries(second));
    }
}

/// Every socket in the numbering that a set gives has the number of its slot.
pub proof fn law_numbered_is_by_slot<'a>(slots: Seq<Option<Entry<'a>>>, i: int)
    requires
        numbered(slots),
        0 <= i < slots.len(),
        slots[i] is Some,
    ensures
        slots[i]->0.handle.0 == i % 256,
{
}

/// The view of a set shows each of its storages, in order.
pub proof fn law_view_shows_every_storage<'a>(set: SocketSet<'a>)
    ensures
        set@.len() == old(set.sockets)@.len(),
        set.storages() == old(set.sockets)@,
        forall|i: int|
            0 <= i < old(set.sockets)@.len() ==> #[trigger] set@[i] == old(set.sockets)@[i]@,
{
}

/// Splits the first element off a slice, with `<[T]>::split_first_mut`.
///
/// It is trusted that the two borrows cover the first element and the rest, that the rest never
/// changes its length, and that what is written through the two ends up in the slice.
#[verifier::external_body]
fn split_first_mut<'b, T>(slice: &'b mut [T]) -> (parts: Option<(&'b mut T, &'b mut [T])>)
    ensures
        parts is None <==> old(slice)@.len() == 0,
        parts is None ==> final(slice)@ == old(slice)@,
        parts matches Some((first, rest)) ==> {
            &&& *first == old(slice)@[0]
            &&& rest@ == old(slice)@.skip(1)
            &&& final(rest)@.len() == rest@.len()
            &&& final(slice)@ == seq![*final(first)] + final(rest)@
        },
{
    slice.split_first_mut()
}

/// An extensible set of sockets.
#[derive(Debug)]
pub struct SocketSet<'a> {
    pub sockets: &'a mut [SocketStorage<'a>],
}

impl<'a> View for SocketSet<'a> {
    type V = Seq<Option<Entry<'a>>>;

    /// The slots of the set: for each the socket that it holds, if any, with its handle.
    open spec fn view(&self) -> Seq<Option<Entry<'a>>> {
        self.sockets@.map_values(|storage: SocketStorage<'a>| storage@)
    }
}

impl<'a> Default for SocketSet<'a> {
    /// A set without any slots.
    fn default() -> (set: SocketSet<'a>)
        ensures
            set@.len() == 0,
    {
        SocketSet { sockets: &mut [] }
    }
}

impl<'a> SocketSet<'a> {
    /// The storages of the set.
    pub open spec fn storages(&self) -> Seq<SocketStorage<'a>> {
        self.sockets@
    }

    /// Create a socket set using the provided storage.
    pub fn new(sockets: &'a mut [SocketStorage<'a>]) -> (set: SocketSet<'a>)
        ensures
            set@ == old(sockets)@.map_values(|storage: SocketStorage<'a>| storage@),
    {
        SocketSet { sockets }
    }

    /// Add a socket to the set, and return its handle.
    ///
    /// The socket goes into the first slot that is free. A handle counts modulo 256.
    ///
    /// # Panics
    /// This function panics if the storage is full.
    pub fn add<T: AnySocket<'a>>(&mut self, socket: T) -> (handle: SocketHandle)
        requires
            has_room(old(self)@),
        ensures
            exists|slot: int|
                {
                    &&& #[trigger] is_first_free(old(self)@, slot)
                    &&& handle == slot_handle(slot)
                    &&& final(self)@ == with_added(old(self)@, slot, socket.upcasted())
                },
    {
        let socket = socket.upcast();
        let len: usize = self.sockets.len();
        let mut index: usize = 0;
        while index < len && self.sockets[index].inner.is_some()
            invariant
                len == self@.len(),
                index <= len,
                self@ == old(self)@,
                forall|j: int| 0 <= j < index ==> (#[trigger] old(self)@[j]) is Some,
            decreases len - index,
        {
            assert(old(self)@[index as int] is Some);
            index = index + 1;
        }
        if index == len {
            // Adding a socket to a full set.
            return vstd::pervasive::unreached();
        }
        assert(is_first_free(old(self)@, index as int));
        let handle = SocketHandle(#[verifier::truncate] (index as u8));
        assert(index as u8 == index % 256) by (bit_vector);
        let mut meta = Meta::default();
        meta.handle = handle;
        self.sockets[index] = SocketStorage { inner: Some(Item { meta, socket }) };
        assert(self@ =~= old(self)@.update(index as int, Some(Entry { handle, socket })));
        handle
    }

    /// Get a socket from the set by its handle.
    ///
    /// # Panics
    /// This function may panic if the handle does not belong to this socket set
    /// or the socket has the wrong type.
    pub fn get<T: AnySocket<'a>>(&self, handle: SocketHandle) -> (socket: &T)
        requires
            refers(self@, handle),
            T::downcasted(self@[handle.0 as int]->0.socket) is Some,
        ensures
            T::downcasted(self@[handle.0 as int]->0.socket) == Some(*socket),
    {
        let item = self.sockets[handle.0 as usize].inner.as_ref().expect(
            "handle does not refer to a valid socket",
        );
        T::downcast(&item.socket).expect("handle refers to a socket of a wrong type")
    }

    /// Get a socket from the set by its handle, as mutable.
    ///
    /// # Panics
    /// This function may panic if the handle does not belong to this socket set
    /// or the socket has the wrong type.
    pub fn get_mut<T: AnySocket<'a>>(&mut self, handle: SocketHandle) -> (socket: &mut T)
        requires
            refers(old(self)@, handle),
            T::downcasted(old(self)@[handle.0 as int]->0.socket) is Some,
        ensures
            T::downcasted(old(self)@[handle.0 as int]->0.socket) == Some(*socket),
            final(self)@ == old(self)@.update(
                handle.0 as int,
                Some(
                    Entry {
                        socket: (*final(socket)).upcasted(),
                        ..old(self)@[handle.0 as int]->0
                    },
                ),
            ),
    {
        let item = self.sockets[handle.0 as usize].inner.as_mut().expect(
            "handle does not refer to a valid socket",
        );
        T::downcast_mut(&mut item.socket).expect("handle refers to a socket of a wrong type")
    }

    /// Remove a socket from the set, without changing its state.
    ///
    /// # Panics
    /// This function may panic if the handle does not belong to this socket set.
    pub fn remove(&mut self, handle: SocketHandle) -> (socket: Socket<'a>)
        requires
            refers(old(self)@, handle),
        ensures
            socket == old(self)@[handle.0 as int]->0.socket,
            final(self)@ == with_removed(old(self)@, handle),
    {
        let item = self.sockets[handle.0 as usize].inner.take().expect(
            "handle does not refer to a valid socket",
        );
        item.socket
    }

    /// Get an iterator to the inner sockets.
    pub fn iter(&self) -> (iter: std::vec::IntoIter<(SocketHandle, &Socket<'a>)>)
        ensures
            iter.remaining() == entries(self@).map_values(
                |entry: Entry<'a>| (entry.handle, &entry.socket),
            ),
    {
        let mut list: Vec<(SocketHandle, &Socket<'a>)> = Vec::new();
        let len: usize = self.sockets.len();
        let mut index: usize = 0;
        while index < len
            invariant
                len == self@.len(),
                index <= len,
                list@ == entries(self@.take(index as int)).map_values(
                    |entry: Entry<'a>| (entry.handle, &entry.socket),
                ),
            decreases len - index,
        {
            assert(self@.take(index + 1).drop_last() =~= self@.take(index as int));
            if let Some(item) = self.sockets[index].inner.as_ref() {
                list.push((item.meta.handle, &item.socket));
            }
            index = index + 1;
        }
        assert(self@.take(len as int) =~= self@);
        list.into_iter()
    }

    /// Get a mutable iterator to the inner sockets.
    pub fn iter_mut<'b>(&'b mut self) -> (iter: std::vec::IntoIter<
        (SocketHandle, &'b mut Socket<'a>),
    >)
        ensures
            iter.remaining().len() == entries(old(self)@).len(),
            forall|k: int|
                0 <= k < iter.remaining().len() ==> {
                    &&& (#[trigger] iter.remaining()[k]).0 == entries(old(self)@)[k].handle
                    &&& *iter.remaining()[k].1 == entries(old(self)@)[k].socket
                },
            final(self)@ == with_sockets(
                old(self)@,
                iter.remaining().map_values(
                    |item: (SocketHandle, &'b mut Socket<'a>)| *final(item.1),
                ),
            ),
    {
        let len: usize = self.sockets.len();
        let ghost whole = final(self).storages();
        let ghost result = final(self)@;
        let mut list: Vec<(SocketHandle, &'b mut Socket<'a>)> = Vec::new();
        let mut rest: &'b mut [SocketStorage<'a>] = crate::ring_buffer::subslice_mut(
            self.sockets,
            0,
            len,
        );
        let ghost slots = old(self)@;
        let mut index: usize = 0;
        while index < len
            invariant
                slots == old(self)@,
                slots.len() == len,
                index <= len,
                rest@ == old(self).storages().skip(index as int),
                final(rest)@.len() == rest@.len(),
                whole.len() == len,
                result == whole.map_values(|storage: SocketStorage<'a>| storage@),
                slots == old(self).storages().map_values(|storage: SocketStorage<'a>| storage@),
                whole.skip(index as int) == final(rest)@,
                list@.len() == entries(slots.take(index as int)).len(),
                forall|k: int|
                    0 <= k < list@.len() ==> {
                        &&& (#[trigger] list@[k]).0 == entries(slots.take(index as int))[k].handle
                        &&& *list@[k].1 == entries(slots.take(index as int))[k].socket
                    },
                result.take(index as int) == with_sockets(
                    slots.take(index as int),
                    list@.map_values(
                        |item: (SocketHandle, &'b mut Socket<'a>)| *final(item.1),
                    ),
                ),
            decreases len - index,
        {
            let ghost now = index as int;
            let ghost listed = list@;
            let ghost finals = |item: (SocketHandle, &'b mut Socket<'a>)| *final(item.1);
            assert(slots.take(now + 1).drop_last() =~= slots.take(now));
            assert(result.take(now + 1) =~= result.take(now).push(result[now]));
            assert(whole.skip(now)[0] == whole[now]);
            assert(whole.skip(now + 1) =~= whole.skip(now).skip(1));
            match split_first_mut(rest) {
                Some((storage, tail)) => {
                    assert(whole.skip(now).skip(1) =~= final(tail)@);
                    assert(tail@ =~= old(self).storages().skip(now + 1));
                    assert(whole[now] == *final(storage));
                    assert(slots[now] == storage@);
                    rest = tail;
                    if let Some(item) = storage.inner.as_mut() {
                        list.push((item.meta.handle, &mut item.socket));
                        assert(list@.map_values(finals).drop_last() =~= listed.map_values(finals));
                    }
                },
                None => {
                    return vstd::pervasive::unreached();
                },
            }
            index = index + 1;
        }
        assert(slots.take(len as int) =~= slots);
        assert(result.take(len as int) =~= result);
        list.into_iter()
    }
}

} // verus!
