use crate::downloader_error::DownloaderError;
use vstd::prelude::*;

verus! {

/// `n` slots, none of them filled.
pub open spec fn vacant(n: nat) -> Seq<Option<Seq<u8>>> {
    Seq::new(n, |i: int| None::<Seq<u8>>)
}

/// Every slot holds a chunk.
pub open spec fn all_filled(slots: Seq<Option<Seq<u8>>>) -> bool {
    forall|i: int| 0 <= i < slots.len() ==> (#[trigger] slots[i]) is Some
}

/// The chunks that the slots hold, in slot order.
pub open spec fn chunks(slots: Seq<Option<Seq<u8>>>) -> Seq<Seq<u8>> {
    slots.map_values(|slot: Option<Seq<u8>>| slot.unwrap())
}

/// The bytes of all chunks, slot 0 first.
pub open spec fn joined(slots: Seq<Option<Seq<u8>>>) -> Seq<u8> {
    chunks(slots).flatten()
}

/// The slots after the transfers named by `order` have completed one after
/// another, transfer `i` delivering `contents[i]` into slot `i`.
pub open spec fn filled_in_order(
    slots: Seq<Option<Seq<u8>>>,
    order: Seq<int>,
    contents: Seq<Seq<u8>>,
) -> Seq<Option<Seq<u8>>>
    decreases order.len(),
{
    if order.len() == 0 {
        slots
    } else {
        filled_in_order(slots, order.drop_last(), contents).update(
            order.last(),
            Some(contents[order.last()]),
        )
    }
}

/// One slot per segment of a track, filled as the transfers complete.
pub struct SegmentSlots {
    slots: Vec<Option<Vec<u8>>>,
    failed: bool,
}

impl View for SegmentSlots {
    type V = Seq<Option<Seq<u8>>>;

    closed spec fn view(&self) -> Seq<Option<Seq<u8>>> {
        self.slots@.map_values(
            |slot: Option<Vec<u8>>|
                match slot {
                    Some(bytes) => Some(bytes@),
                    None => None,
                },
        )
    }
}

impl SegmentSlots {
    /// Whether some transfer has been reported as failed.
    pub closed spec fn failed(&self) -> bool {
        self.failed
    }

    /// Whether joining yields the track: nothing failed and nothing is missing.
    pub open spec fn ready(&self) -> bool {
        !self.failed() && all_filled(self@)
    }

    /// Allocates `n` vacant slots.
    pub fn new(n: usize) -> (slots: SegmentSlots)
        ensures
            slots@ == vacant(n as nat),
            !slots.failed(),
    {
        let mut slots: Vec<Option<Vec<u8>>> = Vec::new();
        let mut i: usize = 0;
        while i < n
            invariant
                i <= n,
                slots.len() == i,
                forall|k: int| 0 <= k < i ==> slots@[k] is None,
            decreases n - i,
        {
            slots.push(None);
            i += 1;
        }
        let made = SegmentSlots { slots, failed: false };
        assert(made@ =~= vacant(n as nat));
        made
    }

    /// The number of slots.
    pub fn len(&self) -> (n: usize)
        ensures
            n == self@.len(),
    {
        self.slots.len()
    }

    /// Puts the bytes of segment `index` into its slot. No other slot changes.
    pub fn store(&mut self, index: usize, bytes: Vec<u8>)
        requires
            index < old(self)@.len(),
        ensures
            final(self)@ == old(self)@.update(index as int, Some(bytes@)),
            final(self).failed() == old(self).failed(),
    {
        self.slots[index] = Some(bytes);
        assert(self@ =~= old(self)@.update(index as int, Some(bytes@)));
    }

    /// Records that a transfer failed. The slots stay as they are.
    pub fn mark_failed(&mut self)
        ensures
            final(self)@ == old(self)@,
            final(self).failed(),
    {
        self.failed = true;
    }

    /// Whether every slot holds a chunk.
    pub fn is_complete(&self) -> (complete: bool)
        ensures
            complete == all_filled(self@),
    {
        let mut i: usize = 0;
        while i < self.slots.len()
            invariant
                i <= self.slots.len(),
                forall|k: int| 0 <= k < i ==> (#[trigger] self@[k]) is Some,
            decreases self.slots.len() - i,
        {
            if self.slots[i].is_none() {
                assert(self@[i as int] is None);
                return false;
            }
            assert(self@[i as int] is Some);
            i += 1;
        }
        true
    }

    /// Concatenates the chunks in slot order. All or nothing: one failed or
    /// missing transfer fails the whole track.
    pub fn join(&self) -> (track: Result<Vec<u8>, DownloaderError>)
        ensures
            match track {
                Ok(bytes) => self.ready() && bytes@ == joined(self@),
                Err(e) => !self.ready() && e == DownloaderError::FetchError,
            },
    {
        if self.failed || !self.is_complete() {
            return Err(DownloaderError::FetchError);
        }
        let mut bytes: Vec<u8> = Vec::new();
        let mut i: usize = 0;
        assert(chunks(self@).take(0) =~= Seq::<Seq<u8>>::empty());
        while i < self.slots.len()
            invariant
                i <= self.slots.len(),
                all_filled(self@),
                bytes@ == chunks(self@).take(i as int).flatten(),
            decreases self.slots.len() - i,
        {
            assert(self@[i as int] is Some);
            let ghost before = bytes@;
            match &self.slots[i] {
                Some(chunk) => {
                    let mut j: usize = 0;
                    while j < chunk.len()
                        invariant
                            j <= chunk.len(),
                            bytes@ == before + chunk@.take(j as int),
                        decreases chunk.len() - j,
                    {
                        bytes.push(chunk[j]);
                        assert(chunk@.take(j as int + 1) =~= chunk@.take(j as int).push(
                            chunk@[j as int],
                        ));
                        j += 1;
                    }
                    assert(chunk@.take(chunk.len() as int) == chunk@);
                    assert(chunks(self@)[i as int] == chunk@);
                },
                None => {},
            }
            proof {
                let done = chunks(self@).take(i as int);
                let next = chunks(self@)[i as int];
                assert(chunks(self@).take(i as int + 1) =~= done.push(next));
                done.lemma_flatten_push(next);
            }
            i += 1;
        }
        assert(chunks(self@).take(self.slots.len() as int) == chunks(self@));
        Ok(bytes)
    }
}

/// After transfers have completed in `order`, a slot that some transfer of
/// `order` names holds that segment's content, and every other slot is as it
/// was.
pub proof fn lemma_filled_slot(
    slots: Seq<Option<Seq<u8>>>,
    order: Seq<int>,
    contents: Seq<Seq<u8>>,
    i: int,
)
    requires
        forall|k: int| 0 <= k < order.len() ==> 0 <= #[trigger] order[k] < slots.len(),
        0 <= i < slots.len(),
    ensures
        filled_in_order(slots, order, contents).len() == slots.len(),
        filled_in_order(slots, order, contents)[i] == if order.contains(i) {
            Some(contents[i])
        } else {
            slots[i]
        },
    decreases order.len(),
{
    if order.len() > 0 {
        let before = order.drop_last();
        lemma_filled_slot(slots, before, contents, i);
        if order.last() == i {
            assert(order[order.len() - 1] == i);
        } else if order.contains(i) {
            let k = choose|k: int| 0 <= k < order.len() && order[k] == i;
            assert(before[k] == i);
        } else {
            if before.contains(i) {
                let k = choose|k: int| 0 <= k < before.len() && before[k] == i;
                assert(order[k] == i);
            }
        }
    }
}

/// The order in which the transfers complete does not show in the result:
/// whenever every segment has been delivered into its own slot, in whatever
/// order and however often, the joined bytes are the segments' contents
/// concatenated in list order.
pub proof fn lemma_completion_order_is_irrelevant(contents: Seq<Seq<u8>>, order: Seq<int>)
    requires
        forall|k: int| 0 <= k < order.len() ==> 0 <= #[trigger] order[k] < contents.len(),
        forall|i: int| 0 <= i < contents.len() ==> order.contains(i),
    ensures
        all_filled(filled_in_order(vacant(contents.len()), order, contents)),
        chunks(filled_in_order(vacant(contents.len()), order, contents)) == contents,
        joined(filled_in_order(vacant(contents.len()), order, contents)) == contents.flatten(),
{
    let start = vacant(contents.len());
    let end = filled_in_order(start, order, contents);
    assert forall|i: int| 0 <= i < contents.len() implies #[trigger] end[i] == Some(
        contents[i],
    ) by {
        lemma_filled_slot(start, order, contents, i);
    }
    if contents.len() > 0 {
        lemma_filled_slot(start, order, contents, 0);
    } else {
        assert(order.len() == 0) by {
            if order.len() > 0 {
                assert(0 <= order[0] < contents.len());
            }
        }
    }
    assert(chunks(end) =~= contents);
}

} // verus!
