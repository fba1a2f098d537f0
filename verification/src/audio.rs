//! Bookkeeping of the sounds that the audio engine plays: each gets a handle
//! of its own, by which it is found, changed and stopped. What a sound is
//! (position, volume, the output stream) is up to the engine.

use vstd::prelude::*;

verus! {

/// A sound channel, mixed at its own volume.
#[derive(Clone, Debug, Copy, PartialEq, Eq, Hash, Structural)]
pub enum AudioChannel {
    /// Sound effects.
    Sfx,
    /// Music.
    Music,
    /// Voice messages and dialogue.
    Voice,
    /// Ambient sounds.
    Ambient,
}

/// Handle of a playing sound.
#[derive(Debug, Clone, Copy, PartialEq, Eq, Structural)]
pub struct SoundHandle(u32);

impl SoundHandle {
    /// The number of the handle.
    pub closed spec fn spec_id(self) -> u32 {
        self.0
    }

    /// The number of the handle: sounds are numbered in the order they
    /// started.
    pub fn id(&self) -> (r: u32)
        ensures
            r == self.spec_id(),
    {
        self.0
    }
}

/// Whether a sound with handle `h` is among `entries`.
pub open spec fn has_handle<S>(entries: Seq<(SoundHandle, S)>, h: SoundHandle) -> bool {
    exists|i: int| 0 <= i < entries.len() && (#[trigger] entries[i]).0 == h
}

/// The sounds of an audio engine, each under its handle, in the order they
/// started.
pub struct SoundSources<S> {
    sources: Vec<(SoundHandle, S)>,
    next_handle_id: u32,
}

impl<S> SoundSources<S> {
    /// The sounds with their handles, oldest first.
    pub closed spec fn entries(&self) -> Seq<(SoundHandle, S)> {
        self.sources@
    }

    /// The number the next sound's handle gets.
    pub closed spec fn next_id(&self) -> u32 {
        self.next_handle_id
    }

    /// Handles are numbered in the order the sounds started, below the next
    /// number to hand out; so no two sounds share a handle.
    pub closed spec fn wf(&self) -> bool {
        &&& forall|i: int, j: int|
            0 <= i < j < self.sources@.len() ==> (#[trigger] self.sources@[i]).0.spec_id()
                < (#[trigger] self.sources@[j]).0.spec_id()
        &&& forall|i: int|
            0 <= i < self.sources@.len() ==> (#[trigger] self.sources@[i]).0.spec_id()
                < self.next_handle_id
    }

    /// No sounds; the first handle is number 0.
    pub fn new() -> (r: Self)
        ensures
            r.wf(),
            r.entries() == Seq::<(SoundHandle, S)>::empty(),
            r.next_id() == 0,
    {
        SoundSources { sources: Vec::new(), next_handle_id: 0 }
    }

    /// Starts keeping `source` and returns its new handle, numbered
    /// `next_id()`.
    pub fn play(&mut self, source: S) -> (r: SoundHandle)
        requires
            old(self).wf(),
            old(self).next_id() < u32::MAX,
        ensures
            final(self).wf(),
            r.spec_id() == old(self).next_id(),
            !has_handle(old(self).entries(), r),
            final(self).entries() == old(self).entries().push((r, source)),
            final(self).next_id() == old(self).next_id() + 1,
    {
        let handle = SoundHandle(self.next_handle_id);
        self.next_handle_id = self.next_handle_id + 1;
        self.sources.push((handle, source));
        handle
    }

    /// Stops the sound with handle `handle`; if there is none, nothing
    /// changes.
    pub fn stop(&mut self, handle: SoundHandle)
        requires
            old(self).wf(),
        ensures
            final(self).wf(),
            final(self).next_id() == old(self).next_id(),
            !has_handle(final(self).entries(), handle),
            !has_handle(old(self).entries(), handle) ==> final(self).entries() == old(
                self,
            ).entries(),
            has_handle(old(self).entries(), handle) ==> exists|i: int|
                0 <= i < old(self).entries().len() && (#[trigger] old(self).entries()[i]).0
                    == handle && final(self).entries() == old(self).entries().remove(i),
    {
        let mut i: usize = 0;
        while i < self.sources.len()
            invariant
                self.wf(),
                self.sources@ == old(self).sources@,
                self.next_handle_id == old(self).next_handle_id,
                0 <= i <= self.sources@.len(),
                forall|k: int| 0 <= k < i ==> (#[trigger] self.sources@[k]).0 != handle,
            decreases self.sources@.len() - i,
        {
            if self.sources[i].0 == handle {
                let ghost before = self.sources@;
                self.sources.remove(i);
                proof {
                    let after = self.sources@;
                    assert forall|a: int, b: int| 0 <= a < b < after.len() implies (
                    #[trigger] after[a]).0.spec_id() < (#[trigger] after[b]).0.spec_id() by {
                        let oa = if a < i { a } else { a + 1 };
                        let ob = if b < i { b } else { b + 1 };
                        assert(after[a] == before[oa]);
                        assert(after[b] == before[ob]);
                        assert(before[oa].0.spec_id() < before[ob].0.spec_id());
                    }
                    assert forall|a: int| 0 <= a < after.len() implies (
                    #[trigger] after[a]).0.spec_id() < self.next_handle_id by {
                        let oa = if a < i { a } else { a + 1 };
                        assert(after[a] == before[oa]);
                    }
                    assert forall|a: int| 0 <= a < after.len() implies (
                    #[trigger] after[a]).0 != handle by {
                        let oa = if a < i { a } else { a + 1 };
                        assert(after[a] == before[oa]);
                        if oa > i {
                            assert(before[i as int].0.spec_id() < before[oa].0.spec_id());
                        }
                    }
                    assert(before[i as int].0 == handle);
                }
                return;
            }
            i = i + 1;
        }
    }

    /// The sound with handle `handle`, if it is kept.
    pub fn get(&self, handle: SoundHandle) -> (r: Option<&S>)
        requires
            self.wf(),
        ensures
            r is Some <==> has_handle(self.entries(), handle),
            r is Some ==> exists|i: int|
                0 <= i < self.entries().len() && (#[trigger] self.entries()[i]).0 == handle
                    && self.entries()[i].1 == *r.unwrap(),
    {
        match self.position(handle) {
            Some(i) => Some(&self.sources[i].1),
            None => None,
        }
    }

    /// The position of the sound with handle `handle`, if it is kept.
    fn position(&self, handle: SoundHandle) -> (r: Option<usize>)
        ensures
            r is None ==> !has_handle(self.entries(), handle),
            r matches Some(i) ==> i < self.entries().len() && self.entries()[i as int].0 == handle,
    {
        let mut i: usize = 0;
        while i < self.sources.len()
            invariant
                0 <= i <= self.sources@.len(),
                forall|k: int| 0 <= k < i ==> (#[trigger] self.sources@[k]).0 != handle,
            decreases self.sources@.len() - i,
        {
            if self.sources[i].0 == handle {
                return Some(i);
            }
            i = i + 1;
        }
        None
    }

    /// The sound with handle `handle`, to be changed, if it is kept.
    pub fn get_mut(&mut self, handle: SoundHandle) -> (r: Option<&mut S>)
        requires
            old(self).wf(),
        ensures
            r is Some <==> has_handle(old(self).entries(), handle),
            r is Some ==> exists|i: int|
                0 <= i < old(self).entries().len() && (#[trigger] old(self).entries()[i]).0
                    == handle && old(self).entries()[i].1 == *r.unwrap() && final(self).entries()
                    == old(self).entries().update(i, (handle, *final(r.unwrap()))),
            r is Some ==> final(self).wf() && final(self).next_id() == old(self).next_id(),
            r is None ==> *final(self) == *old(self),
    {
        match self.position(handle) {
            Some(i) => {
                let entry = &mut self.sources[i];
                Some(&mut entry.1)
            },
            None => None,
        }
    }

    /// The number the next sound's handle will get.
    pub fn peek_next_id(&self) -> (r: u32)
        ensures
            r == self.next_id(),
    {
        self.next_handle_id
    }

    /// The number of sounds kept.
    pub fn len(&self) -> (r: usize)
        ensures
            r == self.entries().len(),
    {
        self.sources.len()
    }
}

/// No two kept sounds share a handle.
pub proof fn law_handles_distinct<S>(sounds: &SoundSources<S>, i: int, j: int)
    requires
        sounds.wf(),
        0 <= i < j < sounds.entries().len(),
    ensures
        sounds.entries()[i].0 != sounds.entries()[j].0,
{
    assert(sounds.entries()[i].0.spec_id() < sounds.entries()[j].0.spec_id());
}

/// After `play(source)` returned `h`, every sound found under `h` is `source`:
/// a handle names the sound it was made for.
pub proof fn law_play_then_find<S>(
    before: &SoundSources<S>,
    after: &SoundSources<S>,
    h: SoundHandle,
    source: S,
    i: int,
)
    requires
        before.wf(),
        !has_handle(before.entries(), h),
        after.entries() == before.entries().push((h, source)),
        0 <= i < after.entries().len(),
        after.entries()[i].0 == h,
    ensures
        after.entries()[i].1 == source,
{
    if i < before.entries().len() {
        assert(before.entries()[i] == after.entries()[i]);
        assert(has_handle(before.entries(), h));
    }
}

} // verus!
