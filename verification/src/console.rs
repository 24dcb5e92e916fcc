//! The console registry: a fixed-capacity list of output consoles that
//! character and string writes fan out to, in registration order.
//!
//! The registry sits behind a non-reentrant exclusive cell, taken for the
//! span of each operation, as every shared resource at this layer is.

use vstd::prelude::*;

use crate::Fault;
use crate::synchronization::NullLock;
use crate::video::{ConsoleModel, Video, spec_write};

verus! {

/// Greatest number of consoles the registry can hold.
pub const NUM_CONSOLES: usize = 5;

/// One registered output console.
pub struct Console {
    /// The console itself.
    pub video: Video,
}

impl Console {
    /// Wraps a console for registration.
    pub fn new(video: Video) -> (c: Console)
        ensures
            c.video@ == video@,
    {
        Console { video }
    }
}

/// Whether a console would refuse writes: it has a surface whose pixel
/// layout has no known encoding.
pub open spec fn console_unsupported(v: ConsoleModel) -> bool {
    v.surface matches Some(sf) && !sf.depth.spec_supported()
}

/// Index of the first console at or after `from` that refuses writes.
pub open spec fn first_unsupported(list: Seq<Console>, from: int) -> Option<int>
    decreases list.len() - from when 0 <= from <= list.len()
{
    if from >= list.len() {
        None
    } else if console_unsupported(list[from].video@) {
        Some(from)
    } else {
        first_unsupported(list, from + 1)
    }
}

/// A scan that found every console before `i` writable, and console `i`
/// refusing if `i` is in range, pins down `first_unsupported`.
pub proof fn lemma_first_unsupported(list: Seq<Console>, from: int, i: int)
    requires
        0 <= from <= i <= list.len(),
        forall|k: int| from <= k < i ==> !console_unsupported((#[trigger] list[k].video)@),
        i < list.len() ==> console_unsupported(list[i].video@),
    ensures
        first_unsupported(list, from) == if i < list.len() {
            Some(i)
        } else {
            None::<int>
        },
    decreases i - from,
{
    if from < i {
        lemma_first_unsupported(list, from + 1, i);
    }
}

/// The registry's state: the registered consoles and the index the next
/// one will take.
pub struct ConsoleInner {
    /// Index the next console will take; equals the number registered.
    pub next_index: usize,
    /// The registered consoles, in registration order.
    pub list: Vec<Console>,
}

impl ConsoleInner {
    /// The index counts the registered consoles, and the fixed capacity is
    /// never exceeded.
    pub open spec fn wf(&self) -> bool {
        self.next_index as int == self.list@.len() && self.list@.len() <= NUM_CONSOLES as int
    }

    /// An empty registry.
    pub fn new() -> (inner: ConsoleInner)
        ensures
            inner.wf(),
            inner.list@.len() == 0,
    {
        ConsoleInner { next_index: 0, list: Vec::new() }
    }
}

/// The console manager: registers consoles and fans writes out to all of
/// them.
pub struct ConsoleManger {
    /// The guarded registry.
    pub inner: NullLock<ConsoleInner>,
}

/// A fresh, empty manager for the caller to own and drive.
pub fn console_manger() -> (m: ConsoleManger)
    ensures
        m.wf(),
        m.registered().len() == 0,
{
    ConsoleManger::new()
}

impl ConsoleManger {
    /// The guard is at rest and the registry inside is well formed.
    pub open spec fn wf(&self) -> bool {
        !self.inner.held() && self.inner.contents().wf()
    }

    /// The registered consoles, in registration order.
    pub open spec fn registered(&self) -> Seq<Console> {
        self.inner.contents().list@
    }

    /// An empty manager.
    pub fn new() -> (m: ConsoleManger)
        ensures
            m.wf(),
            m.registered().len() == 0,
    {
        ConsoleManger { inner: NullLock::new(ConsoleInner::new()) }
    }

    /// Registers one more console at the next free index. The registry is
    /// full at [`NUM_CONSOLES`]; asking for more is a programming error
    /// the caller must not make.
    pub fn register_console(&mut self, console: Console)
        requires
            old(self).wf(),
            old(self).registered().len() < NUM_CONSOLES as int,
        ensures
            final(self).wf(),
            final(self).registered() == old(self).registered().push(console),
    {
        let mut inner = self.inner.acquire();
        inner.list.push(console);
        inner.next_index = inner.next_index + 1;
        self.inner.release(inner);
    }

    /// Reads the registered consoles in place.
    pub fn consoles(&self) -> (v: &Vec<Console>)
        requires
            self.wf(),
        ensures
            v@ == self.registered(),
    {
        &self.inner.peek().list
    }

    /// Writes one character to every registered console, first to last.
    /// A console that refuses the write (unsupported pixel layout) is
    /// skipped; the others still receive the character.
    pub fn write_char(&mut self, c: char)
        requires
            old(self).wf(),
            forall|i: int|
                0 <= i < old(self).registered().len() ==> ((#[trigger] old(self).registered()[i].video)@.wf() && old(self).registered()[i].video@.chars_written + 1
                    <= usize::MAX),
        ensures
            final(self).wf(),
            final(self).registered().len() == old(self).registered().len(),
            forall|i: int|
                0 <= i < old(self).registered().len() ==> (#[trigger] final(self).registered()[i].video)@ == (if console_unsupported(
                    old(self).registered()[i].video@,
                ) {
                    old(self).registered()[i].video@
                } else {
                    spec_write(old(self).registered()[i].video@, seq![c])
                }),
    {
        let ghost l0 = old(self).registered();
        let mut inner = self.inner.acquire();
        let n = inner.list.len();
        let mut i: usize = 0;
        while i < n
            invariant
                i <= n,
                self.inner.held(),
                inner.wf(),
                n == inner.list@.len(),
                n == l0.len(),
                forall|k: int|
                    0 <= k < n ==> ((#[trigger] l0[k].video)@.wf() && l0[k].video@.chars_written
                        + 1 <= usize::MAX),
                forall|k: int| i <= k < n ==> (#[trigger] inner.list@[k]) == l0[k],
                forall|k: int|
                    0 <= k < i ==> (#[trigger] inner.list@[k].video)@ == (if console_unsupported(
                        l0[k].video@,
                    ) {
                        l0[k].video@
                    } else {
                        spec_write(l0[k].video@, seq![c])
                    }),
            decreases n - i,
        {
            let mut con = inner.list.remove(i);
            let ghost before = con.video@;
            let res = con.video.write_char(c);
            proof {
                if console_unsupported(before) {
                    assert(res is Err);
                } else {
                    assert(res is Ok);
                }
            }
            inner.list.insert(i, con);
            i += 1;
        }
        self.inner.release(inner);
    }

    /// Writes a string to every registered console, first to last,
    /// stopping at the first console that refuses it: those before it have
    /// taken the whole string, it and those after it are untouched.
    pub fn write_str(&mut self, text: &str) -> (r: Result<(), Fault>)
        requires
            old(self).wf(),
            forall|i: int|
                0 <= i < old(self).registered().len() ==> ((#[trigger] old(self).registered()[i].video)@.wf() && old(self).registered()[i].video@.chars_written
                    + text@.len() <= usize::MAX),
        ensures
            final(self).wf(),
            final(self).registered().len() == old(self).registered().len(),
            r is Ok <==> first_unsupported(old(self).registered(), 0) is None,
            r is Err ==> r == Err::<(), Fault>(Fault::UnsupportedColorDepth),
            forall|i: int|
                0 <= i < old(self).registered().len() ==> (#[trigger] final(self).registered()[i].video)@ == (if (first_unsupported(old(self).registered(), 0)
                    matches Some(f) && i >= f) {
                    old(self).registered()[i].video@
                } else {
                    spec_write(old(self).registered()[i].video@, text@)
                }),
    {
        let ghost l0 = old(self).registered();
        let mut inner = self.inner.acquire();
        let n = inner.list.len();
        let mut i: usize = 0;
        while i < n
            invariant
                i <= n,
                self.inner.held(),
                l0 == old(self).registered(),
                inner.wf(),
                n == inner.list@.len(),
                n == l0.len(),
                forall|k: int|
                    0 <= k < n ==> ((#[trigger] l0[k].video)@.wf() && l0[k].video@.chars_written
                        + text@.len() <= usize::MAX),
                forall|k: int| i <= k < n ==> (#[trigger] inner.list@[k]) == l0[k],
                forall|k: int| 0 <= k < i ==> !console_unsupported((#[trigger] l0[k].video)@),
                forall|k: int|
                    0 <= k < i ==> (#[trigger] inner.list@[k].video)@ == spec_write(
                        l0[k].video@,
                        text@,
                    ),
            decreases n - i,
        {
            let mut con = inner.list.remove(i);
            let ghost before = con.video@;
            let res = con.video.write_str(text);
            match res {
                Ok(_) => {
                    inner.list.insert(i, con);
                    i += 1;
                },
                Err(e) => {
                    inner.list.insert(i, con);
                    self.inner.release(inner);
                    proof {
                        lemma_first_unsupported(l0, 0, i as int);
                    }
                    return Err(e);
                },
            }
        }
        self.inner.release(inner);
        proof {
            lemma_first_unsupported(l0, 0, n as int);
        }
        Ok(())
    }

    /// Flush: writes are immediately visible on the surface; there is
    /// nothing to push out.
    pub fn flush(&self) {
    }

    /// Clear pending input: the consoles are output-only; there is nothing
    /// to drop.
    pub fn clear_rx(&self) {
    }
}

} // verus!
