//! The register state captured when an exception is taken, the handlers that
//! receive it, and the layout of the vector table that leads to them.

use crate::cpu::{Cpu, CpuView, ExceptionLevel, SysRegs};
use crate::memory::{word_at, Memory};
use vstd::bytes::*;
use vstd::prelude::*;

verus! {

/// The number of machine words in a saved register frame.
pub const FRAME_WORDS: usize = 24;

/// The size in bytes of a saved register frame.
pub const FRAME_BYTES: u64 = 192;

/// The frame word that is reserved for alignment and never saved or restored.
pub const PADDING_WORD: usize = 19;

/// The frame word that holds `x29`.
pub const FP_WORD: usize = 20;

/// The frame word that holds `x30`.
pub const LR_WORD: usize = 21;

/// The frame word that holds the saved program counter.
pub const ELR_WORD: usize = 22;

/// The frame word that holds the saved processor state.
pub const SPSR_WORD: usize = 23;

/// The register state saved before calling the exception handler.
#[derive(Clone, Debug, Eq, PartialEq)]
pub struct RegisterState {
    /// Registers x0-x18.
    pub registers: [u64; 19],
    /// Keeps the frame a multiple of 16 bytes; never saved or restored.
    pub padding: u64,
    /// Register x29, the Frame Pointer.
    pub fp: u64,
    /// Register x30, as it was when the exception was taken.
    pub sp: u64,
    pub elr: u64,
    pub spsr: u64,
}

impl View for RegisterState {
    type V = Seq<u64>;

    /// The 24 words of the frame, in the order in which they lie in memory.
    open spec fn view(&self) -> Seq<u64> {
        self.registers@.push(self.padding).push(self.fp).push(self.sp).push(self.elr).push(
            self.spsr,
        )
    }
}

impl RegisterState {
    /// The register state whose frame holds exactly `words`.
    pub fn from_words(words: &[u64; 24]) -> (state: RegisterState)
        ensures
            state@ == words@,
    {
        let mut registers = [0u64; 19];
        let mut i: usize = 0;
        while i < 19
            invariant
                i <= 19,
                forall|k: int| 0 <= k < i ==> registers@[k] == words@[k],
            decreases 19 - i,
        {
            registers[i] = words[i];
            i += 1;
        }
        let state = RegisterState {
            registers,
            padding: words[19],
            fp: words[20],
            sp: words[21],
            elr: words[22],
            spsr: words[23],
        };
        assert(state@ =~= words@);
        state
    }

    /// The frame of this register state, word by word.
    pub fn to_words(&self) -> (words: [u64; 24])
        ensures
            words@ == self@,
    {
        let mut words = [0u64; 24];
        let mut i: usize = 0;
        while i < 19
            invariant
                i <= 19,
                forall|k: int| 0 <= k < i ==> words@[k] == self.registers@[k],
            decreases 19 - i,
        {
            words[i] = self.registers[i];
            i += 1;
        }
        words[19] = self.padding;
        words[20] = self.fp;
        words[21] = self.sp;
        words[22] = self.elr;
        words[23] = self.spsr;
        assert(words@ =~= self@);
        words
    }

    /// A frame is always 24 words, and the named fields sit at fixed places in it.
    pub proof fn lemma_layout(self)
        ensures
            self@.len() == FRAME_WORDS,
            8 * FRAME_WORDS == FRAME_BYTES,
            forall|k: int| 0 <= k < 19 ==> self@[k] == self.registers@[k],
            self@[PADDING_WORD as int] == self.padding,
            self@[FP_WORD as int] == self.fp,
            self@[LR_WORD as int] == self.sp,
            self@[ELR_WORD as int] == self.elr,
            self@[SPSR_WORD as int] == self.spsr,
    {
    }
}

/// A reference to the register state saved when an exception happened.
///
/// Reading through it is always possible. Writing goes through
/// [`RegisterStateRef::get_mut`] alone.
#[derive(Debug, Eq, PartialEq)]
pub struct RegisterStateRef<'a>(&'a mut RegisterState);

impl<'a> RegisterStateRef<'a> {
    /// The register state that the reference points at.
    pub closed spec fn state(&self) -> RegisterState {
        *self.0
    }

    /// Returns a mutable reference to the register state.
    ///
    /// Whatever is written through it is what the core resumes with when the
    /// handler returns: the saved return address, the saved processor state and
    /// every saved general-purpose register. The caller answers for the
    /// interrupted code being able to go on from that state.
    pub fn get_mut(&mut self) -> (state: &mut RegisterState)
        ensures
            *state == old(self).state(),
            final(self).state() == *final(state),
    {
        self.0
    }
}

impl AsRef<RegisterState> for RegisterStateRef<'_> {
    fn as_ref(&self) -> (state: &RegisterState)
        ensures
            *state == self.state(),
    {
        self.0
    }
}

impl core::borrow::Borrow<RegisterState> for RegisterStateRef<'_> {
    fn borrow(&self) -> (state: &RegisterState)
        ensures
            ({
                let referent: RegisterState = *state;
                referent == self.state()
            }),
    {
        self.0
    }
}

impl core::ops::Deref for RegisterStateRef<'_> {
    type Target = RegisterState;

    fn deref(&self) -> (state: &RegisterState)
        ensures
            *state == self.state(),
    {
        self.0
    }
}

/// The eight kinds of exception that a handler can be asked to deal with.
#[derive(Clone, Copy, Debug, PartialEq, Eq, Structural)]
pub enum ExceptionClass {
    SyncCurrent,
    IrqCurrent,
    FiqCurrent,
    SErrorCurrent,
    SyncLower,
    IrqLower,
    FiqLower,
    SErrorLower,
}

impl ExceptionClass {
    /// The diagnostic for an exception of this class that nothing handles.
    pub open spec fn message_text(self) -> Seq<char> {
        match self {
            ExceptionClass::SyncCurrent => "Unexpected synchronous exception from current EL"@,
            ExceptionClass::IrqCurrent => "Unexpected IRQ from current EL"@,
            ExceptionClass::FiqCurrent => "Unexpected FIQ from current EL"@,
            ExceptionClass::SErrorCurrent => "Unexpected SError from current EL"@,
            ExceptionClass::SyncLower => "Unexpected synchronous exception from lower EL"@,
            ExceptionClass::IrqLower => "Unexpected IRQ from lower EL"@,
            ExceptionClass::FiqLower => "Unexpected FIQ from lower EL"@,
            ExceptionClass::SErrorLower => "Unexpected SError from lower EL"@,
        }
    }

    /// The diagnostic for an exception of this class that nothing handles.
    pub fn message(self) -> (text: &'static str)
        ensures
            text@ == self.message_text(),
    {
        match self {
            ExceptionClass::SyncCurrent => "Unexpected synchronous exception from current EL",
            ExceptionClass::IrqCurrent => "Unexpected IRQ from current EL",
            ExceptionClass::FiqCurrent => "Unexpected FIQ from current EL",
            ExceptionClass::SErrorCurrent => "Unexpected SError from current EL",
            ExceptionClass::SyncLower => "Unexpected synchronous exception from lower EL",
            ExceptionClass::IrqLower => "Unexpected IRQ from lower EL",
            ExceptionClass::FiqLower => "Unexpected FIQ from lower EL",
            ExceptionClass::SErrorLower => "Unexpected SError from lower EL",
        }
    }
}

/// The diagnostic tells the class: two classes never share a message.
pub proof fn lemma_message_identifies_class(a: ExceptionClass, b: ExceptionClass)
    requires
        a.message_text() == b.message_text(),
    ensures
        a == b,
{
    reveal_strlit("Unexpected synchronous exception from current EL");
    reveal_strlit("Unexpected IRQ from current EL");
    reveal_strlit("Unexpected FIQ from current EL");
    reveal_strlit("Unexpected SError from current EL");
    reveal_strlit("Unexpected synchronous exception from lower EL");
    reveal_strlit("Unexpected IRQ from lower EL");
    reveal_strlit("Unexpected FIQ from lower EL");
    reveal_strlit("Unexpected SError from lower EL");
    let ta = a.message_text();
    let tb = b.message_text();
    assert(ta.len() == tb.len());
    assert(ta[11] == tb[11]);
}

/// An exception that no handler took: the core must stop.
#[derive(Clone, Copy, Debug, PartialEq, Eq, Structural)]
pub struct UnexpectedException {
    /// The class of the exception that fired.
    pub class: ExceptionClass,
}

/// Functions to handle aarch64 exceptions.
///
/// Each method has a default implementation which refuses the exception and
/// names its class. A handler that returns `Ok` lets the interrupted code
/// resume from the register state as the handler left it.
pub trait ExceptionHandlers {
    /// Handles synchronous exceptions from the current exception level.
    fn sync_current(register_state: RegisterStateRef) -> (outcome: Result<
        (),
        UnexpectedException,
    >)
        default_ensures
            outcome == Err::<(), UnexpectedException>(
                UnexpectedException { class: ExceptionClass::SyncCurrent },
            ),
    {
        let _ = register_state;
        Err(UnexpectedException { class: ExceptionClass::SyncCurrent })
    }

    /// Handles IRQs from the current exception level.
    fn irq_current(register_state: RegisterStateRef) -> (outcome: Result<(), UnexpectedException>)
        default_ensures
            outcome == Err::<(), UnexpectedException>(
                UnexpectedException { class: ExceptionClass::IrqCurrent },
            ),
    {
        let _ = register_state;
        Err(UnexpectedException { class: ExceptionClass::IrqCurrent })
    }

    /// Handles FIQs from the current exception level.
    fn fiq_current(register_state: RegisterStateRef) -> (outcome: Result<(), UnexpectedException>)
        default_ensures
            outcome == Err::<(), UnexpectedException>(
                UnexpectedException { class: ExceptionClass::FiqCurrent },
            ),
    {
        let _ = register_state;
        Err(UnexpectedException { class: ExceptionClass::FiqCurrent })
    }

    /// Handles SErrors from the current exception level.
    fn serror_current(register_state: RegisterStateRef) -> (outcome: Result<
        (),
        UnexpectedException,
    >)
        default_ensures
            outcome == Err::<(), UnexpectedException>(
                UnexpectedException { class: ExceptionClass::SErrorCurrent },
            ),
    {
        let _ = register_state;
        Err(UnexpectedException { class: ExceptionClass::SErrorCurrent })
    }

    /// Handles synchronous exceptions from a lower exception level.
    fn sync_lower(register_state: RegisterStateRef) -> (outcome: Result<(), UnexpectedException>)
        default_ensures
            outcome == Err::<(), UnexpectedException>(
                UnexpectedException { class: ExceptionClass::SyncLower },
            ),
    {
        let _ = register_state;
        Err(UnexpectedException { class: ExceptionClass::SyncLower })
    }

    /// Handles IRQs from a lower exception level.
    fn irq_lower(register_state: RegisterStateRef) -> (outcome: Result<(), UnexpectedException>)
        default_ensures
            outcome == Err::<(), UnexpectedException>(
                UnexpectedException { class: ExceptionClass::IrqLower },
            ),
    {
        let _ = register_state;
        Err(UnexpectedException { class: ExceptionClass::IrqLower })
    }

    /// Handles FIQs from a lower exception level.
    fn fiq_lower(register_state: RegisterStateRef) -> (outcome: Result<(), UnexpectedException>)
        default_ensures
            outcome == Err::<(), UnexpectedException>(
                UnexpectedException { class: ExceptionClass::FiqLower },
            ),
    {
        let _ = register_state;
        Err(UnexpectedException { class: ExceptionClass::FiqLower })
    }

    /// Handles SErrors from a lower exception level.
    fn serror_lower(register_state: RegisterStateRef) -> (outcome: Result<(), UnexpectedException>)
        default_ensures
            outcome == Err::<(), UnexpectedException>(
                UnexpectedException { class: ExceptionClass::SErrorLower },
            ),
    {
        let _ = register_state;
        Err(UnexpectedException { class: ExceptionClass::SErrorLower })
    }
}

/// The handlers of an embedder that overrides nothing.
pub struct DefaultHandlers;

impl ExceptionHandlers for DefaultHandlers {

}

/// `outcome` is what the handler of `H` for `class` can return for `register_state`.
pub open spec fn handled_by<H: ExceptionHandlers>(
    class: ExceptionClass,
    register_state: RegisterStateRef,
    outcome: Result<(), UnexpectedException>,
) -> bool {
    match class {
        ExceptionClass::SyncCurrent => call_ensures(H::sync_current, (register_state,), outcome),
        ExceptionClass::IrqCurrent => call_ensures(H::irq_current, (register_state,), outcome),
        ExceptionClass::FiqCurrent => call_ensures(H::fiq_current, (register_state,), outcome),
        ExceptionClass::SErrorCurrent => call_ensures(
            H::serror_current,
            (register_state,),
            outcome,
        ),
        ExceptionClass::SyncLower => call_ensures(H::sync_lower, (register_state,), outcome),
        ExceptionClass::IrqLower => call_ensures(H::irq_lower, (register_state,), outcome),
        ExceptionClass::FiqLower => call_ensures(H::fiq_lower, (register_state,), outcome),
        ExceptionClass::SErrorLower => call_ensures(H::serror_lower, (register_state,), outcome),
    }
}

/// Calls the handler of `H` that is responsible for `class`.
pub fn dispatch<H: ExceptionHandlers>(
    class: ExceptionClass,
    register_state: RegisterStateRef,
) -> (outcome: Result<(), UnexpectedException>)
    ensures
        handled_by::<H>(class, register_state, outcome),
{
    match class {
        ExceptionClass::SyncCurrent => H::sync_current(register_state),
        ExceptionClass::IrqCurrent => H::irq_current(register_state),
        ExceptionClass::FiqCurrent => H::fiq_current(register_state),
        ExceptionClass::SErrorCurrent => H::serror_current(register_state),
        ExceptionClass::SyncLower => H::sync_lower(register_state),
        ExceptionClass::IrqLower => H::irq_lower(register_state),
        ExceptionClass::FiqLower => H::fiq_lower(register_state),
        ExceptionClass::SErrorLower => H::serror_lower(register_state),
    }
}

/// Calls the handler of `H` that is responsible for `class` with a reference
/// to `state`, the register state that was saved when the exception was taken.
pub fn handle_exception<H: ExceptionHandlers>(
    class: ExceptionClass,
    state: &mut RegisterState,
) -> (outcome: Result<(), UnexpectedException>)
    ensures
        exists|register_state: RegisterStateRef|
            register_state.state() == *old(state) && #[trigger] handled_by::<H>(
                class,
                register_state,
                outcome,
            ),
{
    let reference = RegisterStateRef(state);
    let ghost handed = reference;
    let outcome = dispatch::<H>(class, reference);
    assert(handled_by::<H>(class, handed, outcome));
    outcome
}

/// Without an override, every one of the eight handlers refuses the exception
/// and reports the class that fired.
pub proof fn lemma_default_handlers_refuse(
    class: ExceptionClass,
    register_state: RegisterStateRef,
    outcome: Result<(), UnexpectedException>,
)
    requires
        handled_by::<DefaultHandlers>(class, register_state, outcome),
    ensures
        outcome == Err::<(), UnexpectedException>(UnexpectedException { class }),
{
}

/// Runs the handlers of an embedder that overrides nothing on `state`: the
/// exception is refused, whatever its class, and the refusal names the class.
pub fn dispatch_unhandled(class: ExceptionClass, state: &mut RegisterState) -> (refusal:
    UnexpectedException)
    ensures
        refusal.class == class,
{
    match dispatch::<DefaultHandlers>(class, RegisterStateRef(state)) {
        Ok(()) => UnexpectedException { class },
        Err(refusal) => refusal,
    }
}

/// `bytes` with the first `count` words of `words` stored little-endian from
/// index `at`, the padding word left as it was.
pub open spec fn frame_prefix(bytes: Seq<u8>, at: int, words: Seq<u64>, count: int) -> Seq<u8> {
    Seq::new(
        bytes.len(),
        |i: int|
            {
                let k = (i - at) / 8;
                if at <= i && k < count && k != 19 {
                    spec_u64_to_le_bytes(words[k])[(i - at) % 8]
                } else {
                    bytes[i]
                }
            },
    )
}

/// `bytes` with the frame `words` stored from index `at`, the padding word
/// left as it was.
pub open spec fn frame_stored(bytes: Seq<u8>, at: int, words: Seq<u64>) -> Seq<u8> {
    frame_prefix(bytes, at, words, 24)
}

/// The 24 words that lie in `bytes` from index `at`.
pub open spec fn frame_at(bytes: Seq<u8>, at: int) -> Seq<u64> {
    Seq::new(24, |k: int| word_at(bytes, at + 8 * k))
}

/// Storing word `k` extends a partly written frame by one word.
proof fn lemma_frame_prefix_step(bytes: Seq<u8>, at: int, words: Seq<u64>, k: int)
    requires
        0 <= at,
        at + 192 <= bytes.len(),
        0 <= k < 24,
        k != 19,
    ensures
        crate::memory::with_word(frame_prefix(bytes, at, words, k), at + 8 * k, words[k])
            == frame_prefix(bytes, at, words, k + 1),
{
    let before = frame_prefix(bytes, at, words, k);
    let after = crate::memory::with_word(before, at + 8 * k, words[k]);
    assert forall|i: int| 0 <= i < bytes.len() implies after[i] == frame_prefix(
        bytes,
        at,
        words,
        k + 1,
    )[i] by {
        if at + 8 * k <= i < at + 8 * k + 8 {
            assert((i - at) / 8 == k);
            assert((i - at) % 8 == i - (at + 8 * k));
        } else if at <= i {
            assert((i - at) / 8 != k);
        }
    }
    assert(after =~= frame_prefix(bytes, at, words, k + 1));
}

/// Nothing is stored for the padding word, and nothing before the first word.
proof fn lemma_frame_prefix_gaps(bytes: Seq<u8>, at: int, words: Seq<u64>)
    requires
        0 <= at,
        at + 192 <= bytes.len(),
    ensures
        frame_prefix(bytes, at, words, 0) == bytes,
        frame_prefix(bytes, at, words, 19) == frame_prefix(bytes, at, words, 20),
{
    assert(frame_prefix(bytes, at, words, 0) =~= bytes);
    assert(frame_prefix(bytes, at, words, 19) =~= frame_prefix(bytes, at, words, 20));
}

/// A stored frame reads back word for word; the padding word reads as before.
pub proof fn lemma_frame_reads_back(bytes: Seq<u8>, at: int, words: Seq<u64>, k: int)
    requires
        0 <= at,
        at + 192 <= bytes.len(),
        0 <= k < 24,
    ensures
        frame_at(frame_stored(bytes, at, words), at)[k] == if k == 19 {
            word_at(bytes, at + 152)
        } else {
            words[k]
        },
{
    lemma_auto_spec_u64_to_from_le_bytes();
    let stored = frame_stored(bytes, at, words);
    let window = stored.subrange(at + 8 * k, at + 8 * k + 8);
    if k == 19 {
        assert forall|j: int| 0 <= j < 8 implies window[j] == bytes.subrange(at + 152, at + 160)[j] by {
            assert((at + 152 + j - at) / 8 == 19);
        }
        assert(window =~= bytes.subrange(at + 152, at + 160));
    } else {
        assert forall|j: int| 0 <= j < 8 implies window[j] == spec_u64_to_le_bytes(words[k])[j] by {
            assert((at + 8 * k + j - at) / 8 == k);
            assert((at + 8 * k + j - at) % 8 == j);
        }
        assert(window =~= spec_u64_to_le_bytes(words[k]));
    }
}

/// Storing a frame touches the frame's own bytes only, and a second store over
/// the first replaces it.
pub proof fn lemma_frame_stored_twice(bytes: Seq<u8>, at: int, first: Seq<u64>, second: Seq<u64>)
    ensures
        frame_stored(frame_stored(bytes, at, first), at, second) == frame_stored(bytes, at, second),
        frame_stored(bytes, at, first).len() == bytes.len(),
        forall|i: int|
            0 <= i < bytes.len() && !(at <= i < at + 192) ==> frame_stored(bytes, at, first)[i]
                == bytes[i],
{
    assert(frame_stored(frame_stored(bytes, at, first), at, second) =~= frame_stored(
        bytes,
        at,
        second,
    ));
    assert forall|i: int| 0 <= i < bytes.len() && !(at <= i < at + 192) implies frame_stored(
        bytes,
        at,
        first,
    )[i] == bytes[i] by {
        if at <= i {
            assert((i - at) / 8 >= 24);
        }
    }
}

/// The frame that an exception at `level` saves: `x0` to `x18`, a padding word
/// that is not written, `x29`, `x30`, the return address and the processor state.
pub open spec fn saved_frame(pre: CpuView, level: ExceptionLevel) -> Seq<u64> {
    Seq::new(
        24,
        |k: int|
            if k < 19 {
                pre.x[k]
            } else if k == 20 {
                pre.x[29]
            } else if k == 21 {
                pre.x[30]
            } else if k == 22 {
                pre.sys(level).elr
            } else if k == 23 {
                pre.sys(level).spsr
            } else {
                0
            },
    )
}

/// The core after its volatile registers were saved: the stack pointer is one
/// frame lower, and `x0` and `x1` hold the return address and processor state.
pub open spec fn frame_pushed(pre: CpuView, level: ExceptionLevel) -> CpuView {
    CpuView {
        sp: pre.sp.wrapping_sub(192),
        x: pre.x.update(0, pre.sys(level).elr).update(1, pre.sys(level).spsr),
        ..pre
    }
}

/// The core after its volatile registers were restored from `frame`: `x0` to
/// `x18`, `x29`, `x30`, the return address and the processor state come from
/// the frame, `x19` to `x28` are untouched, and the stack pointer is one frame
/// higher.
pub open spec fn frame_popped(pre: CpuView, level: ExceptionLevel, frame: Seq<u64>) -> CpuView {
    CpuView {
        sp: pre.sp.wrapping_add(192),
        x: Seq::new(
            31,
            |i: int|
                if i < 19 {
                    frame[i]
                } else if i == 29 {
                    frame[20]
                } else if i == 30 {
                    frame[21]
                } else {
                    pre.x[i]
                },
        ),
        ..pre.with_sys(level, SysRegs { elr: frame[22], spsr: frame[23], ..pre.sys(level) })
    }
}

/// Stores `x<first>` and `x<second>` as words `k` and `k + 1` of the frame at
/// the stack pointer.
fn save_pair(
    cpu: &Cpu,
    mem: &mut Memory,
    first: usize,
    second: usize,
    k: usize,
    Ghost(bytes): Ghost<Seq<u8>>,
    Ghost(words): Ghost<Seq<u64>>,
)
    requires
        first < 31,
        second < 31,
        k < 23,
        k != 19,
        k != 18,
        old(mem).contains(cpu@.sp as int, 192),
        bytes.len() == old(mem)@.len(),
        old(mem)@ == frame_prefix(bytes, old(mem).index_of(cpu@.sp as int), words, k as int),
        words[k as int] == cpu@.x[first as int],
        words[k + 1] == cpu@.x[second as int],
    ensures
        final(mem).base() == old(mem).base(),
        final(mem)@ == frame_prefix(bytes, old(mem).index_of(cpu@.sp as int), words, k + 2),
{
    let _ = mem.len();
    let ghost at = mem.index_of(cpu@.sp as int);
    proof {
        lemma_frame_prefix_step(bytes, at, words, k as int);
        lemma_frame_prefix_step(bytes, at, words, k + 1);
    }
    cpu.store_pair(mem, first, second, cpu.sp + 8 * (k as u64));
}

/// Saves the volatile registers onto the stack, in 14 operations.
///
/// Afterwards `x0` and `x1` hold the return address and the processor state of
/// the interrupted code.
pub fn save_volatile_to_stack(cpu: &mut Cpu, mem: &mut Memory, level: ExceptionLevel)
    requires
        old(mem).contains(old(cpu)@.sp.wrapping_sub(192) as int, 192),
    ensures
        final(cpu)@ == frame_pushed(old(cpu)@, level),
        final(mem).base() == old(mem).base(),
        final(mem)@ == frame_stored(
            old(mem)@,
            old(mem).index_of(old(cpu)@.sp.wrapping_sub(192) as int),
            saved_frame(old(cpu)@, level),
        ),
{
    let _ = mem.len();
    let ghost pre = cpu@;
    let ghost bytes = mem@;
    let ghost words = saved_frame(pre, level);
    let ghost at = mem.index_of(pre.sp.wrapping_sub(192) as int);
    proof {
        lemma_frame_prefix_gaps(bytes, at, words);
    }
    // Reserve stack space and save registers x0-x18, x29 & x30.
    cpu.sp = cpu.sp.wrapping_sub(192);
    save_pair(cpu, mem, 0, 1, 0, Ghost(bytes), Ghost(words));
    save_pair(cpu, mem, 2, 3, 2, Ghost(bytes), Ghost(words));
    save_pair(cpu, mem, 4, 5, 4, Ghost(bytes), Ghost(words));
    save_pair(cpu, mem, 6, 7, 6, Ghost(bytes), Ghost(words));
    save_pair(cpu, mem, 8, 9, 8, Ghost(bytes), Ghost(words));
    save_pair(cpu, mem, 10, 11, 10, Ghost(bytes), Ghost(words));
    save_pair(cpu, mem, 12, 13, 12, Ghost(bytes), Ghost(words));
    save_pair(cpu, mem, 14, 15, 14, Ghost(bytes), Ghost(words));
    save_pair(cpu, mem, 16, 17, 16, Ghost(bytes), Ghost(words));
    proof {
        lemma_frame_prefix_step(bytes, at, words, 18);
    }
    cpu.store_reg(mem, 18, cpu.sp + 144);
    save_pair(cpu, mem, 29, 30, 20, Ghost(bytes), Ghost(words));
    // Save the return address and processor state, so that a nested exception
    // can be taken and unwound.
    let regs = cpu.sys(level);
    cpu.set_reg(0, regs.elr);
    cpu.set_reg(1, regs.spsr);
    save_pair(cpu, mem, 0, 1, 22, Ghost(bytes), Ghost(words));
}

/// Restores the volatile registers from the stack, in 14 operations, and
/// releases the frame.
pub fn restore_volatile_from_stack(cpu: &mut Cpu, mem: &Memory, level: ExceptionLevel)
    requires
        mem.contains(old(cpu)@.sp as int, 192),
    ensures
        final(cpu)@ == frame_popped(
            old(cpu)@,
            level,
            frame_at(mem@, mem.index_of(old(cpu)@.sp as int)),
        ),
{
    let _ = mem.len();
    let ghost pre = cpu@;
    let ghost frame = frame_at(mem@, mem.index_of(pre.sp as int));
    let sp = cpu.sp;
    // Restore registers x2-x18, x29 & x30.
    cpu.load_pair(mem, 2, 3, sp + 16);
    cpu.load_pair(mem, 4, 5, sp + 32);
    cpu.load_pair(mem, 6, 7, sp + 48);
    cpu.load_pair(mem, 8, 9, sp + 64);
    cpu.load_pair(mem, 10, 11, sp + 80);
    cpu.load_pair(mem, 12, 13, sp + 96);
    cpu.load_pair(mem, 14, 15, sp + 112);
    cpu.load_pair(mem, 16, 17, sp + 128);
    cpu.load_reg(mem, 18, sp + 144);
    cpu.load_pair(mem, 29, 30, sp + 160);
    // Restore the return address and processor state, using x0 & x1 as scratch.
    cpu.load_pair(mem, 0, 1, sp + 176);
    let regs = cpu.sys(level);
    cpu.set_sys(level, SysRegs { elr: cpu.reg(0), ..regs });
    let regs = cpu.sys(level);
    cpu.set_sys(level, SysRegs { spsr: cpu.reg(1), ..regs });
    // Restore x0 & x1, and release stack space.
    cpu.load_pair(mem, 0, 1, sp);
    cpu.sp = sp.wrapping_add(192);
    proof {
        assert forall|k: int| 0 <= k < 24 implies mem.word(pre.sp + 8 * k) == #[trigger] frame[k] by {}
        assert(cpu@.x =~= frame_popped(pre, level, frame).x);
    }
}

/// Restoring what was just saved gives back the core as it was when the
/// exception was taken: the handler's argument register included.
pub proof fn lemma_restore_inverts_save(
    pre: CpuView,
    level: ExceptionLevel,
    bytes: Seq<u8>,
    at: int,
)
    requires
        pre.x.len() == 31,
        0 <= at,
        at + 192 <= bytes.len(),
    ensures
        frame_popped(
            handler_entered(pre, level),
            level,
            frame_at(frame_stored(bytes, at, saved_frame(pre, level)), at),
        ) == pre,
{
    let words = saved_frame(pre, level);
    let frame = frame_at(frame_stored(bytes, at, words), at);
    assert forall|k: int| 0 <= k < 24 && k != 19 implies frame[k] == words[k] by {
        lemma_frame_reads_back(bytes, at, words, k);
    }
    let post = frame_popped(handler_entered(pre, level), level, frame);
    assert(post.x =~= pre.x);
    assert(post.sys(level) == pre.sys(level));
    assert(post =~= pre);
}

/// The core at the moment the handler is called: its volatile registers are
/// saved and `x0` points at the frame.
pub open spec fn handler_entered(pre: CpuView, level: ExceptionLevel) -> CpuView {
    frame_pushed(pre, level).with_reg(0, pre.sp.wrapping_sub(192))
}

/// What an exception return resumes: an address and a processor state.
#[derive(Clone, Copy, Debug, PartialEq, Eq, Structural)]
pub struct ExceptionReturn {
    pub pc: u64,
    pub pstate: u64,
}

/// What the handler returned, given what the vector table entry returned.
pub open spec fn handler_verdict(outcome: Result<ExceptionReturn, UnexpectedException>) -> Result<
    (),
    UnexpectedException,
> {
    match outcome {
        Ok(_) => Ok(()),
        Err(refusal) => Err(refusal),
    }
}

/// The register state held by the frame at `addr`.
fn load_frame(mem: &Memory, addr: u64) -> (state: RegisterState)
    requires
        mem.contains(addr as int, 192),
    ensures
        state@ == frame_at(mem@, mem.index_of(addr as int)),
{
    let _ = mem.len();
    let mut words = [0u64; 24];
    let mut k: usize = 0;
    while k < 24
        invariant
            k <= 24,
            mem.contains(addr as int, 192),
            mem.base() + mem@.len() <= u64::MAX + 1,
            forall|j: int| 0 <= j < k ==> words@[j] == mem.word(addr + 8 * j),
        decreases 24 - k,
    {
        words[k] = mem.read_u64(addr + 8 * (k as u64));
        k += 1;
    }
    assert(words@ =~= frame_at(mem@, mem.index_of(addr as int)));
    RegisterState::from_words(&words)
}

/// Writes `state` into the frame at `addr`; the padding word is left alone.
fn store_frame(mem: &mut Memory, addr: u64, state: &RegisterState)
    requires
        old(mem).contains(addr as int, 192),
    ensures
        final(mem).base() == old(mem).base(),
        final(mem)@ == frame_stored(old(mem)@, old(mem).index_of(addr as int), state@),
{
    let _ = mem.len();
    let words = state.to_words();
    let ghost bytes = mem@;
    let ghost at = mem.index_of(addr as int);
    proof {
        lemma_frame_prefix_gaps(bytes, at, words@);
    }
    let mut k: usize = 0;
    while k < 24
        invariant
            k <= 24,
            words@ == state@,
            at == addr - mem.base(),
            mem.base() == old(mem).base(),
            0 <= at,
            at + 192 <= bytes.len(),
            bytes.len() == mem@.len(),
            mem.base() + mem@.len() <= u64::MAX + 1,
            mem@ == frame_prefix(bytes, at, words@, k as int),
        decreases 24 - k,
    {
        if k != 19 {
            proof {
                lemma_frame_prefix_step(bytes, at, words@, k as int);
            }
            mem.write_u64(addr + 8 * (k as u64), words[k]);
        }
        k += 1;
    }
}

/// The second half of a vector table entry, for the register state as the
/// handler left it and the handler's verdict.
///
/// Writes `state` into the frame at the stack pointer. If the handler took the
/// exception, restores the volatile registers from that frame, releases it and
/// returns from the exception to where `state` says. If the handler refused,
/// leaves the core as it is and passes the refusal on.
pub fn exception_return(
    cpu: &mut Cpu,
    mem: &mut Memory,
    level: ExceptionLevel,
    state: &RegisterState,
    verdict: Result<(), UnexpectedException>,
) -> (outcome: Result<ExceptionReturn, UnexpectedException>)
    requires
        old(mem).contains(old(cpu)@.sp as int, 192),
    ensures
        final(mem).base() == old(mem).base(),
        final(mem)@ == frame_stored(old(mem)@, old(mem).index_of(old(cpu)@.sp as int), state@),
        match verdict {
            Ok(_) => {
                &&& final(cpu)@ == frame_popped(old(cpu)@, level, state@)
                &&& outcome == Ok::<ExceptionReturn, UnexpectedException>(
                    ExceptionReturn { pc: state@[22], pstate: state@[23] },
                )
            },
            Err(refusal) => {
                &&& final(cpu)@ == old(cpu)@
                &&& outcome == Err::<ExceptionReturn, UnexpectedException>(refusal)
            },
        },
{
    let _ = mem.len();
    let ghost pre = cpu@;
    let ghost bytes = mem@;
    let ghost at = mem.index_of(cpu@.sp as int);
    store_frame(mem, cpu.sp, state);
    match verdict {
        Err(refusal) => Err(refusal),
        Ok(_) => {
            restore_volatile_from_stack(cpu, mem, level);
            proof {
                let frame = frame_at(mem@, at);
                assert forall|k: int| 0 <= k < 24 && k != 19 implies frame[k] == state@[k] by {
                    lemma_frame_reads_back(bytes, at, state@, k);
                }
                assert(frame_popped(pre, level, frame).x =~= frame_popped(pre, level, state@).x);
            }
            let regs = cpu.sys(level);
            Ok(ExceptionReturn { pc: regs.elr, pstate: regs.spsr })
        },
    }
}

/// The whole of one vector table entry: saves the volatile registers, calls the
/// handler of `H` for `class` with the saved frame, writes the register state
/// back as the handler left it and, if the handler took the exception,
/// restores the registers from it and returns from the exception.
///
/// The handler is handed the frame as it was saved. What is in the frame
/// afterwards, and what the core resumes with, is one register state: the one
/// that [`exception_return`] was given. Only the frame is written in `mem`.
/// When the handler refuses, nothing is restored: the core is left as the
/// handler was entered, with the frame on the stack, for the embedder's fatal
/// stop.
pub fn current_exception<H: ExceptionHandlers>(
    cpu: &mut Cpu,
    mem: &mut Memory,
    level: ExceptionLevel,
    class: ExceptionClass,
) -> (outcome: Result<ExceptionReturn, UnexpectedException>)
    requires
        old(mem).contains(old(cpu)@.sp.wrapping_sub(192) as int, 192),
    ensures
        final(mem).base() == old(mem).base(),
        exists|register_state: RegisterStateRef|
            {
                &&& register_state.state()@ == frame_at(
                    frame_stored(
                        old(mem)@,
                        old(mem).index_of(old(cpu)@.sp.wrapping_sub(192) as int),
                        saved_frame(old(cpu)@, level),
                    ),
                    old(mem).index_of(old(cpu)@.sp.wrapping_sub(192) as int),
                )
                &&& #[trigger] handled_by::<H>(
                    class,
                    register_state,
                    handler_verdict(outcome),
                )
            },
        exists|resumed: RegisterState|
            {
                &&& final(mem)@ == #[trigger] frame_stored(
                    old(mem)@,
                    old(mem).index_of(old(cpu)@.sp.wrapping_sub(192) as int),
                    resumed@,
                )
                &&& match outcome {
                    Ok(resume) => {
                        &&& final(cpu)@ == frame_popped(
                            handler_entered(old(cpu)@, level),
                            level,
                            resumed@,
                        )
                        &&& resume == (ExceptionReturn { pc: resumed@[22], pstate: resumed@[23] })
                    },
                    Err(_) => final(cpu)@ == handler_entered(old(cpu)@, level),
                }
            },
{
    let ghost bytes = mem@;
    let ghost at = mem.index_of(cpu@.sp.wrapping_sub(192) as int);
    let ghost words = saved_frame(cpu@, level);
    save_volatile_to_stack(cpu, mem, level);
    cpu.set_reg(0, cpu.sp);
    let mut state = load_frame(mem, cpu.sp);
    let ghost saved = state;
    let verdict = handle_exception::<H>(class, &mut state);
    let outcome = exception_return(cpu, mem, level, &state, verdict);
    proof {
        lemma_frame_stored_twice(bytes, at, words, state@);
        let handed = choose|register_state: RegisterStateRef|
            register_state.state() == saved && #[trigger] handled_by::<H>(
                class,
                register_state,
                verdict,
            );
        assert(handled_by::<H>(class, handed, verdict));
        assert(handler_verdict(outcome) == verdict) by {
            match verdict {
                Ok(done) => {
                    assert(done == ());
                },
                Err(_) => {},
            }
        }
        assert(mem@ == frame_stored(bytes, at, state@));
    }
    outcome
}

/// A vector table entry changes no byte of memory outside the frame that it
/// pushes.
pub proof fn lemma_frame_is_all_that_is_written(bytes: Seq<u8>, at: int, state: Seq<u64>, i: int)
    requires
        0 <= i < bytes.len(),
        !(at <= i < at + 192),
    ensures
        frame_stored(bytes, at, state).len() == bytes.len(),
        frame_stored(bytes, at, state)[i] == bytes[i],
{
    lemma_frame_stored_twice(bytes, at, state, state);
}

/// Where an exception came from.
#[derive(Clone, Copy, Debug, PartialEq, Eq, Structural)]
pub enum Origin {
    /// The current exception level, using `SP_EL0`.
    CurrentSp0,
    /// The current exception level, using its own stack pointer.
    CurrentSpx,
    /// A lower exception level running AArch64.
    LowerAarch64,
    /// A lower exception level running AArch32.
    LowerAarch32,
}

/// Why an exception was taken.
#[derive(Clone, Copy, Debug, PartialEq, Eq, Structural)]
pub enum Cause {
    Synchronous,
    Irq,
    Fiq,
    SError,
}

/// The number of entries in a vector table.
pub const VECTOR_SLOTS: u64 = 16;

/// The size in bytes of one vector table entry.
pub const SLOT_BYTES: u64 = 0x80;

/// The alignment and size in bytes of a vector table.
pub const VECTOR_TABLE_BYTES: u64 = 0x800;

/// The number of instructions that fit in one vector table entry.
pub const SLOT_INSTRUCTION_BUDGET: u64 = 32;

/// The number of operations that save the volatile registers.
pub const SAVE_OPERATIONS: u64 = 14;

/// The number of operations that restore the volatile registers.
pub const RESTORE_OPERATIONS: u64 = 14;

/// The number of instructions in one vector table entry: the save, the move of
/// the frame pointer into the argument register, the call, the restore and the
/// exception return.
pub const SLOT_INSTRUCTIONS: u64 = SAVE_OPERATIONS + 2 + RESTORE_OPERATIONS + 1;

impl Origin {
    /// The row of the vector table for this origin.
    pub open spec fn row(self) -> int {
        match self {
            Origin::CurrentSp0 => 0,
            Origin::CurrentSpx => 1,
            Origin::LowerAarch64 => 2,
            Origin::LowerAarch32 => 3,
        }
    }
}

impl Cause {
    /// The column of the vector table for this cause.
    pub open spec fn column(self) -> int {
        match self {
            Cause::Synchronous => 0,
            Cause::Irq => 1,
            Cause::Fiq => 2,
            Cause::SError => 3,
        }
    }
}

/// The offset from the start of a vector table of the entry for `origin` and
/// `cause`.
pub open spec fn slot_offset_of(origin: Origin, cause: Cause) -> int {
    0x80 * (4 * origin.row() + cause.column())
}

/// The class of handler that the entry for `origin` and `cause` calls: one set
/// of handlers serves both stack pointer choices of the current level, another
/// both execution states of a lower level.
pub open spec fn class_for(origin: Origin, cause: Cause) -> ExceptionClass {
    match (origin, cause) {
        (Origin::CurrentSp0, Cause::Synchronous) => ExceptionClass::SyncCurrent,
        (Origin::CurrentSpx, Cause::Synchronous) => ExceptionClass::SyncCurrent,
        (Origin::CurrentSp0, Cause::Irq) => ExceptionClass::IrqCurrent,
        (Origin::CurrentSpx, Cause::Irq) => ExceptionClass::IrqCurrent,
        (Origin::CurrentSp0, Cause::Fiq) => ExceptionClass::FiqCurrent,
        (Origin::CurrentSpx, Cause::Fiq) => ExceptionClass::FiqCurrent,
        (Origin::CurrentSp0, Cause::SError) => ExceptionClass::SErrorCurrent,
        (Origin::CurrentSpx, Cause::SError) => ExceptionClass::SErrorCurrent,
        (Origin::LowerAarch64, Cause::Synchronous) => ExceptionClass::SyncLower,
        (Origin::LowerAarch32, Cause::Synchronous) => ExceptionClass::SyncLower,
        (Origin::LowerAarch64, Cause::Irq) => ExceptionClass::IrqLower,
        (Origin::LowerAarch32, Cause::Irq) => ExceptionClass::IrqLower,
        (Origin::LowerAarch64, Cause::Fiq) => ExceptionClass::FiqLower,
        (Origin::LowerAarch32, Cause::Fiq) => ExceptionClass::FiqLower,
        (Origin::LowerAarch64, Cause::SError) => ExceptionClass::SErrorLower,
        (Origin::LowerAarch32, Cause::SError) => ExceptionClass::SErrorLower,
    }
}

/// The offset of the entry for `origin` and `cause` in a vector table.
pub fn slot_offset(origin: Origin, cause: Cause) -> (offset: u64)
    ensures
        offset == slot_offset_of(origin, cause),
        offset < VECTOR_TABLE_BYTES,
        offset % SLOT_BYTES == 0,
{
    let row: u64 = match origin {
        Origin::CurrentSp0 => 0,
        Origin::CurrentSpx => 1,
        Origin::LowerAarch64 => 2,
        Origin::LowerAarch32 => 3,
    };
    let column: u64 = match cause {
        Cause::Synchronous => 0,
        Cause::Irq => 1,
        Cause::Fiq => 2,
        Cause::SError => 3,
    };
    SLOT_BYTES * (4 * row + column)
}

/// The entry that starts at `offset` in a vector table: `None` if and only if
/// no entry starts there.
pub fn slot_at(offset: u64) -> (entry: Option<(Origin, Cause)>)
    ensures
        match entry {
            Some((origin, cause)) => slot_offset_of(origin, cause) == offset,
            None => offset >= VECTOR_TABLE_BYTES || offset % SLOT_BYTES != 0,
        },
        entry is None ==> forall|origin: Origin, cause: Cause|
            slot_offset_of(origin, cause) != offset,
{
    if offset >= VECTOR_TABLE_BYTES || offset % SLOT_BYTES != 0 {
        assert forall|origin: Origin, cause: Cause| slot_offset_of(origin, cause) != offset by {
            assert(slot_offset_of(origin, cause) % 0x80 == 0);
            assert(slot_offset_of(origin, cause) < 0x800);
        }
        return None;
    }
    let index = offset / SLOT_BYTES;
    let origin = match index / 4 {
        0 => Origin::CurrentSp0,
        1 => Origin::CurrentSpx,
        2 => Origin::LowerAarch64,
        _ => Origin::LowerAarch32,
    };
    let cause = match index % 4 {
        0 => Cause::Synchronous,
        1 => Cause::Irq,
        2 => Cause::Fiq,
        _ => Cause::SError,
    };
    Some((origin, cause))
}

/// The class of handler that the entry for `origin` and `cause` calls.
pub fn handler_class(origin: Origin, cause: Cause) -> (class: ExceptionClass)
    ensures
        class == class_for(origin, cause),
{
    match origin {
        Origin::CurrentSp0 | Origin::CurrentSpx => match cause {
            Cause::Synchronous => ExceptionClass::SyncCurrent,
            Cause::Irq => ExceptionClass::IrqCurrent,
            Cause::Fiq => ExceptionClass::FiqCurrent,
            Cause::SError => ExceptionClass::SErrorCurrent,
        },
        Origin::LowerAarch64 | Origin::LowerAarch32 => match cause {
            Cause::Synchronous => ExceptionClass::SyncLower,
            Cause::Irq => ExceptionClass::IrqLower,
            Cause::Fiq => ExceptionClass::FiqLower,
            Cause::SError => ExceptionClass::SErrorLower,
        },
    }
}

/// The sixteen entries tile the table without overlap, each holds its
/// instructions within the architectural budget, and save with call and
/// restore with return each fit in half an entry.
pub proof fn lemma_vector_table_layout(origin: Origin, cause: Cause, other_origin: Origin, other_cause: Cause)
    ensures
        0 <= slot_offset_of(origin, cause) <= VECTOR_TABLE_BYTES - SLOT_BYTES,
        slot_offset_of(origin, cause) % (SLOT_BYTES as int) == 0,
        (origin, cause) != (other_origin, other_cause) ==> slot_offset_of(origin, cause)
            + SLOT_BYTES <= slot_offset_of(other_origin, other_cause) || slot_offset_of(
            other_origin,
            other_cause,
        ) + SLOT_BYTES <= slot_offset_of(origin, cause),
        VECTOR_SLOTS * SLOT_BYTES == VECTOR_TABLE_BYTES,
        SLOT_INSTRUCTION_BUDGET * 4 == SLOT_BYTES,
        SLOT_INSTRUCTIONS == 31,
        SLOT_INSTRUCTIONS <= SLOT_INSTRUCTION_BUDGET,
        SAVE_OPERATIONS + 2 <= SLOT_INSTRUCTION_BUDGET / 2,
        RESTORE_OPERATIONS + 1 <= SLOT_INSTRUCTION_BUDGET / 2,
{
}

/// The addresses of the vector tables, one per exception level.
#[derive(Clone, Copy, Debug, PartialEq, Eq, Structural)]
pub struct VectorTables {
    pub el1: u64,
    pub el2: u64,
    pub el3: u64,
}

impl VectorTables {
    /// The address of the table for `level`.
    pub open spec fn spec_base(self, level: ExceptionLevel) -> u64 {
        match level {
            ExceptionLevel::El1 => self.el1,
            ExceptionLevel::El2 => self.el2,
            ExceptionLevel::El3 => self.el3,
        }
    }

    /// The address of the table for `level`.
    #[verifier::when_used_as_spec(spec_base)]
    pub fn base(self, level: ExceptionLevel) -> (addr: u64)
        ensures
            addr == self.spec_base(level),
    {
        match level {
            ExceptionLevel::El1 => self.el1,
            ExceptionLevel::El2 => self.el2,
            ExceptionLevel::El3 => self.el3,
        }
    }
}

/// The core after the vector table was installed: with a level to install for,
/// `x9` and that level's vector base hold the address of its table; without
/// one, nothing changed.
pub open spec fn vector_installed(
    pre: CpuView,
    tables: VectorTables,
    level: Option<ExceptionLevel>,
) -> CpuView {
    match level {
        None => pre,
        Some(level) => pre.with_reg(9, tables.base(level)).after_msr_vbar(
            level,
            tables.base(level),
        ),
    }
}

/// Sets the vector base register of `level` to point to its vector table, if
/// exception handling is configured for a level.
pub fn set_exception_vector(cpu: &mut Cpu, tables: VectorTables, level: Option<ExceptionLevel>)
    ensures
        final(cpu)@ == vector_installed(old(cpu)@, tables, level),
{
    match level {
        None => {},
        Some(ExceptionLevel::El1) => {
            cpu.set_reg(9, tables.el1);
            let table = cpu.reg(9);
            cpu.msr_vbar(ExceptionLevel::El1, table);
        },
        Some(ExceptionLevel::El2) => {
            cpu.set_reg(9, tables.el2);
            let table = cpu.reg(9);
            cpu.msr_vbar(ExceptionLevel::El2, table);
        },
        Some(ExceptionLevel::El3) => {
            cpu.set_reg(9, tables.el3);
            let table = cpu.reg(9);
            cpu.msr_vbar(ExceptionLevel::El3, table);
        },
    }
}

} // verus!
