//! The entry routine and the fault handler as a state machine. Each step says
//! what the hardware should see next: one cell written, or nothing at all. A
//! host that runs the steps forever gets the program; a test that runs a
//! bounded number of them against a [`TextBuffer`] gets a simulation of it.

use vstd::prelude::*;
use crate::cell::{attr_of, cell_of, char_of, encode_cell, lemma_cell_bytes};
use crate::screen::TextBuffer;

verus! {

/// The colour attribute of the reference message: green on black.
pub const REFERENCE_ATTRIBUTE: u8 = 0x02;

/// What the hardware should see after one step.
#[derive(PartialEq, Eq, Structural, Clone, Copy, Debug)]
pub enum Action {
    /// Store `value` in the cell at `offset` of the text buffer.
    Write { offset: usize, value: u16 },
    /// Do nothing observable.
    Idle,
}

/// The message of the reference program: "OK".
pub open spec fn reference_message() -> Seq<u8> {
    seq![0x4Fu8, 0x4Bu8]
}

/// The writes that show `message` in colour `attr`, one cell per character
/// from offset 0 on, in the order they are made.
pub open spec fn schedule(message: Seq<u8>, attr: u8) -> Seq<(usize, u16)> {
    Seq::new(message.len(), |i: int| (i as usize, cell_of(message[i], attr)))
}

/// The state of the entry routine: the message to show, its colour, the
/// offset of the next cell to write, and whether the routine has halted.
pub ghost struct EntryView {
    pub message: Seq<u8>,
    pub attribute: u8,
    pub next: nat,
    pub halted: bool,
}

impl EntryView {
    pub open spec fn wf(self) -> bool {
        &&& self.next <= self.message.len()
        &&& self.message.len() <= usize::MAX
    }

    /// The entry routine at `Start`: nothing written yet.
    pub open spec fn start(message: Seq<u8>, attribute: u8) -> EntryView {
        EntryView { message, attribute, next: 0, halted: false }
    }

    /// One step: write the next cell while one is left, then halt; once
    /// halted, stay halted and do nothing.
    pub open spec fn step(self) -> (EntryView, Action) {
        if self.halted {
            (self, Action::Idle)
        } else if self.next < self.message.len() {
            (
                EntryView { next: self.next + 1, ..self },
                Action::Write {
                    offset: self.next as usize,
                    value: cell_of(self.message[self.next as int], self.attribute),
                },
            )
        } else {
            (self.halt(), Action::Idle)
        }
    }

    /// The state after a fault: halted, nothing else changed.
    pub open spec fn halt(self) -> EntryView {
        EntryView { halted: true, ..self }
    }

    /// The number of writes still to come.
    pub open spec fn remaining(self) -> nat {
        if self.halted {
            0
        } else {
            (self.message.len() - self.next) as nat
        }
    }

    /// The number of writes made in the next `k` steps.
    pub open spec fn written(self, k: nat) -> nat {
        if k <= self.remaining() {
            k
        } else {
            self.remaining()
        }
    }

    /// The state after `k` steps.
    pub open spec fn advanced(self, k: nat) -> EntryView {
        if self.halted {
            self
        } else if k <= self.remaining() {
            EntryView { next: self.next + k, ..self }
        } else {
            EntryView { next: self.message.len(), halted: true, ..self }
        }
    }

    /// The writes made in the next `k` steps, in order.
    pub open spec fn emitted(self, k: nat) -> Seq<(usize, u16)> {
        schedule(self.message, self.attribute).subrange(
            self.next as int,
            (self.next + self.written(k)) as int,
        )
    }

    /// Whether the cell at offset `j` is written in the next `k` steps.
    pub open spec fn covers(self, k: nat, j: int) -> bool {
        self.next <= j < self.next + self.written(k)
    }
}

/// The entry routine and its fault handler.
pub struct EntryCore {
    message: Vec<u8>,
    attribute: u8,
    next: usize,
    halted: bool,
}

impl View for EntryCore {
    type V = EntryView;

    closed spec fn view(&self) -> EntryView {
        EntryView {
            message: self.message@,
            attribute: self.attribute,
            next: self.next as nat,
            halted: self.halted,
        }
    }
}

impl EntryCore {
    /// The routine at `Start`, to show `message` in colour `attribute`.
    pub fn new(message: Vec<u8>, attribute: u8) -> (r: EntryCore)
        ensures
            r@ == EntryView::start(message@, attribute),
            r@.wf(),
    {
        let _ = message.len();
        EntryCore { message, attribute, next: 0, halted: false }
    }

    /// The routine of the reference program, at `Start`: "OK" in green.
    pub fn reference() -> (r: EntryCore)
        ensures
            r@ == EntryView::start(reference_message(), REFERENCE_ATTRIBUTE),
            r@.wf(),
    {
        let message: Vec<u8> = vec![0x4Fu8, 0x4Bu8];
        assert(message@ =~= reference_message());
        EntryCore::new(message, REFERENCE_ATTRIBUTE)
    }

    /// Whether the routine has reached its terminal state.
    pub fn is_halted(&self) -> (r: bool)
        ensures
            r == self@.halted,
    {
        self.halted
    }

    /// Takes one step and says what the hardware should see.
    pub fn step(&mut self) -> (r: Action)
        requires
            old(self)@.wf(),
        ensures
            (final(self)@, r) == old(self)@.step(),
            final(self)@.wf(),
    {
        if self.halted {
            Action::Idle
        } else if self.next < self.message.len() {
            let offset = self.next;
            let value = encode_cell(self.message[offset], self.attribute);
            self.next = offset + 1;
            Action::Write { offset, value }
        } else {
            self.halted = true;
            Action::Idle
        }
    }

    /// The fault handler: halts for good, whatever `diagnostic` holds, and
    /// asks for nothing to be shown.
    pub fn fault(&mut self, _diagnostic: &[u8]) -> (r: Action)
        requires
            old(self)@.wf(),
        ensures
            final(self)@ == old(self)@.halt(),
            final(self)@.wf(),
            r == Action::Idle,
    {
        self.halted = true;
        Action::Idle
    }
}

/// One step more of a run from `c`: the state and the writes follow the
/// closed forms.
proof fn lemma_advance_one(c: EntryView, i: nat)
    requires
        c.wf(),
    ensures
        c.advanced(i).wf(),
        c.advanced(i).step().0 == c.advanced(i + 1),
        c.emitted(i + 1) == match c.advanced(i).step().1 {
            Action::Write { offset, value } => c.emitted(i).push((offset, value)),
            Action::Idle => c.emitted(i),
        },
        forall|j: int|
            c.covers(i + 1, j) == (c.covers(i, j) || match c.advanced(i).step().1 {
                Action::Write { offset, value } => j == offset,
                Action::Idle => false,
            }),
        match c.advanced(i).step().1 {
            Action::Write { offset, value } => c.next + i == offset as int
                && (offset as int) < c.message.len()
                && value == cell_of(c.message[offset as int], c.attribute),
            Action::Idle => true,
        },
{
    let s = schedule(c.message, c.attribute);
    if !c.halted && i < c.remaining() {
        assert(c.emitted(i + 1) =~= c.emitted(i).push(s[(c.next + i) as int]));
    } else {
        assert(c.emitted(i + 1) =~= c.emitted(i));
    }
}

/// Runs `steps` steps of `core` against `buf`, carrying out each write.
pub fn run(core: &mut EntryCore, buf: &mut TextBuffer, steps: usize)
    requires
        old(core)@.wf(),
        old(core)@.message.len() <= old(buf)@.cells.len(),
    ensures
        final(core)@ == old(core)@.advanced(steps as nat),
        final(core)@.wf(),
        final(buf)@.writes == old(buf)@.writes + old(core)@.emitted(steps as nat),
        final(buf)@.cells.len() == old(buf)@.cells.len(),
        forall|j: int|
            0 <= j < old(buf)@.cells.len() ==> final(buf)@.cells[j] == if old(core)@.covers(
                steps as nat,
                j,
            ) {
                cell_of(old(core)@.message[j], old(core)@.attribute)
            } else {
                old(buf)@.cells[j]
            },
        final(buf)@.reads == old(buf)@.reads,
{
    let ghost c0 = core@;
    let ghost b0 = buf@;
    let mut i: usize = 0;
    while i < steps
        invariant
            i <= steps,
            c0.wf(),
            c0.message.len() <= b0.cells.len(),
            core@ == c0.advanced(i as nat),
            buf@.writes == b0.writes + c0.emitted(i as nat),
            buf@.cells.len() == b0.cells.len(),
            forall|j: int|
                0 <= j < b0.cells.len() ==> buf@.cells[j] == if c0.covers(i as nat, j) {
                    cell_of(c0.message[j], c0.attribute)
                } else {
                    b0.cells[j]
                },
            buf@.reads == b0.reads,
        decreases steps - i,
    {
        proof {
            lemma_advance_one(c0, i as nat);
        }
        let action = core.step();
        match action {
            Action::Write { offset, value } => {
                buf.write_cell(offset, value);
            },
            Action::Idle => {},
        }
        assert(buf@.writes =~= b0.writes + c0.emitted((i + 1) as nat));
        i = i + 1;
    }
}

/// The entry routine of the reference program, run for `steps` steps against
/// `buf`; gives back the routine's state.
pub fn run_entry(buf: &mut TextBuffer, steps: usize) -> (r: EntryCore)
    requires
        old(buf)@.cells.len() >= reference_message().len(),
    ensures
        ({
            let c = EntryView::start(reference_message(), REFERENCE_ATTRIBUTE);
            &&& r@ == c.advanced(steps as nat)
            &&& r@.wf()
            &&& final(buf)@.writes == old(buf)@.writes + c.emitted(steps as nat)
            &&& final(buf)@.cells.len() == old(buf)@.cells.len()
            &&& forall|j: int|
                0 <= j < old(buf)@.cells.len() ==> final(buf)@.cells[j] == if c.covers(
                    steps as nat,
                    j,
                ) {
                    cell_of(c.message[j], c.attribute)
                } else {
                    old(buf)@.cells[j]
                }
            &&& final(buf)@.reads == old(buf)@.reads
        }),
{
    let mut core = EntryCore::reference();
    run(&mut core, buf, steps);
    core
}

/// The writes of a run come in the order of their offsets, one cell after
/// another from where the routine stood.
pub proof fn lemma_writes_in_order(c: EntryView, k: nat)
    requires
        c.wf(),
    ensures
        c.emitted(k).len() == c.written(k),
        forall|i: int| 0 <= i < c.emitted(k).len() ==> c.emitted(k)[i].0 as int == c.next + i,
        forall|i: int, j: int|
            0 <= i < j < c.emitted(k).len() ==> c.emitted(k)[i].0 < c.emitted(k)[j].0,
{
}

/// Each write of a message puts the character's code in the low byte of the
/// cell at the character's position, and the attribute in the high byte.
pub proof fn lemma_schedule_content(message: Seq<u8>, attr: u8)
    requires
        message.len() <= usize::MAX,
    ensures
        schedule(message, attr).len() == message.len(),
        forall|i: int|
            0 <= i < message.len() ==> {
                &&& schedule(message, attr)[i].0 as int == i
                &&& char_of(schedule(message, attr)[i].1) == message[i]
                &&& attr_of(schedule(message, attr)[i].1) == attr
            },
{
    assert forall|i: int| 0 <= i < message.len() implies {
        &&& char_of(schedule(message, attr)[i].1) == message[i]
        &&& attr_of(schedule(message, attr)[i].1) == attr
    } by {
        lemma_cell_bytes(message[i], attr);
    }
}

/// The reference program writes 0x024F at offset 0 and 0x024B at offset 1.
pub proof fn lemma_reference_schedule()
    ensures
        schedule(reference_message(), REFERENCE_ATTRIBUTE) == seq![
            (0usize, 0x024Fu16),
            (1usize, 0x024Bu16),
        ],
{
    assert(schedule(reference_message(), REFERENCE_ATTRIBUTE) =~= seq![
        (0usize, 0x024Fu16),
        (1usize, 0x024Bu16),
    ]);
}

/// Run from `Start` for more steps than the message has characters, the
/// routine makes exactly the writes of the message, covers exactly its cells,
/// and ends halted.
pub proof fn lemma_full_run(message: Seq<u8>, attr: u8, k: nat)
    requires
        message.len() <= usize::MAX,
        k > message.len(),
    ensures
        EntryView::start(message, attr).emitted(k) == schedule(message, attr),
        EntryView::start(message, attr).advanced(k).halted,
        forall|j: int| EntryView::start(message, attr).covers(k, j) <==> 0 <= j < message.len(),
{
    assert(EntryView::start(message, attr).emitted(k) =~= schedule(message, attr));
}

/// Once the last write is made the routine halts: it stays in that state,
/// each further step does nothing, and no further write ever comes.
pub proof fn lemma_halt_is_terminal(c: EntryView, k: nat, extra: nat)
    requires
        c.wf(),
        k > c.remaining(),
    ensures
        c.advanced(k).halted,
        c.advanced(k).step() == (c.advanced(k), Action::Idle),
        c.advanced(k + extra) == c.advanced(k),
        c.emitted(k + extra) == c.emitted(k),
{
}

/// After a fault the routine writes nothing and its state never changes, for
/// any number of steps.
pub proof fn lemma_fault_is_silent(c: EntryView, k: nat)
    requires
        c.wf(),
    ensures
        c.halt().emitted(k) == Seq::<(usize, u16)>::empty(),
        c.halt().advanced(k) == c.halt(),
        c.halt().step() == (c.halt(), Action::Idle),
{
    assert(c.halt().emitted(k) =~= Seq::<(usize, u16)>::empty());
}

} // verus!
