//! The playback handle cache.
//!
//! A note sounds only while its playback handle is alive, so the handles of the notes
//! played last are kept: at most [`MAX_HANDLES`] of them, the oldest leaving first.
//! Nothing is looked up or moved: every play adds a new handle at the back.

use vstd::prelude::*;

verus! {

/// The number of playback handles that are kept alive.
pub const MAX_HANDLES: usize = 50;

/// The handles after one more is added: it goes to the back, and where the limit was
/// already reached the oldest one leaves first.
pub open spec fn added<H>(handles: Seq<H>, handle: H) -> Seq<H> {
    if handles.len() >= MAX_HANDLES {
        handles.drop_first().push(handle)
    } else {
        handles.push(handle)
    }
}

/// The handles after a run of them is added one by one, in order.
pub open spec fn added_all<H>(handles: Seq<H>, more: Seq<H>) -> Seq<H>
    decreases more.len(),
{
    if more.len() == 0 {
        handles
    } else {
        added(added_all(handles, more.drop_last()), more.last())
    }
}

/// The last `count` entries of a sequence, or all of it where it is shorter.
pub open spec fn newest<H>(all: Seq<H>, count: nat) -> Seq<H> {
    if all.len() <= count {
        all
    } else {
        all.subrange(all.len() - count, all.len() as int)
    }
}

/// Adds a playback handle to the kept ones, dropping the oldest first where
/// [`MAX_HANDLES`] are already held.
pub fn playback_handle_add<H>(handle: H, handles: &mut Vec<H>)
    ensures
        final(handles)@ == added(old(handles)@, handle),
{
    if handles.len() >= MAX_HANDLES {
        handles.remove(0);
    }
    handles.push(handle);
    assert(final(handles)@ =~= added(old(handles)@, handle));
}

/// The handles of the notes played last, oldest first, never more than [`MAX_HANDLES`].
pub struct PlaybackHandleCache<H> {
    handles: Vec<H>,
}

impl<H> View for PlaybackHandleCache<H> {
    type V = Seq<H>;

    closed spec fn view(&self) -> Seq<H> {
        self.handles@
    }
}

impl<H> PlaybackHandleCache<H> {
    /// The cache holds no more than [`MAX_HANDLES`] handles.
    pub open spec fn wf(&self) -> bool {
        self@.len() <= MAX_HANDLES
    }

    /// An empty cache.
    pub fn new() -> (cache: Self)
        ensures
            cache.wf(),
            cache@ == Seq::<H>::empty(),
    {
        PlaybackHandleCache { handles: Vec::new() }
    }

    /// Keeps `handle` as the newest entry; the oldest leaves first where the cache is full.
    pub fn insert(&mut self, handle: H)
        ensures
            final(self)@ == added(old(self)@, handle),
            old(self).wf() ==> final(self).wf(),
    {
        playback_handle_add(handle, &mut self.handles);
    }

    /// The number of handles held.
    pub fn len(&self) -> (n: usize)
        ensures
            n == self@.len(),
    {
        self.handles.len()
    }

    /// The handles held, oldest first.
    pub fn handles(&self) -> (held: &Vec<H>)
        ensures
            held@ == self@,
    {
        &self.handles
    }
}

impl<H> Default for PlaybackHandleCache<H> {
    /// The empty cache.
    fn default() -> (cache: Self)
        ensures
            cache.wf(),
            cache@ == Seq::<H>::empty(),
    {
        PlaybackHandleCache::new()
    }
}

/// Adding a run of handles to a cache within its limit leaves the newest
/// [`MAX_HANDLES`] of everything that was ever held, in the order of their arrival.
pub proof fn lemma_added_all_keeps_newest<H>(handles: Seq<H>, more: Seq<H>)
    requires
        handles.len() <= MAX_HANDLES,
    ensures
        added_all(handles, more) == newest(handles + more, MAX_HANDLES as nat),
        added_all(handles, more).len() <= MAX_HANDLES,
    decreases more.len(),
{
    if more.len() == 0 {
        assert(handles + more =~= handles);
    } else {
        let front = more.drop_last();
        lemma_added_all_keeps_newest(handles, front);
        assert(handles + more =~= (handles + front).push(more.last()));
        assert(added_all(handles, more) =~= newest(handles + more, MAX_HANDLES as nat));
    }
}

/// Starting from an empty cache, once [`MAX_HANDLES`] or more handles have been added
/// the cache holds exactly the last [`MAX_HANDLES`] of them, oldest first.
pub proof fn lemma_overfull_run_keeps_last<H>(more: Seq<H>)
    requires
        more.len() >= MAX_HANDLES,
    ensures
        added_all(Seq::<H>::empty(), more).len() == MAX_HANDLES,
        added_all(Seq::<H>::empty(), more) == more.subrange(
            more.len() - MAX_HANDLES,
            more.len() as int,
        ),
{
    lemma_added_all_keeps_newest(Seq::<H>::empty(), more);
    assert(Seq::<H>::empty() + more =~= more);
    assert(more.subrange(0, more.len() as int) =~= more);
}

} // verus!
