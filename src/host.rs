use vstd::prelude::*;
use crate::instruction_result::InstructionResult;
use crate::interpreter::Interpreter;
use crate::semantics::FrameModel;

verus! {

/// The environment of a call frame: state writes, and the two inspection
/// hooks around each instruction. The hooks see the frame but cannot change
/// it; a hook stops the run by answering anything but `Continue`. What each
/// call answers, and how it changes the host, is a function of the host's
/// view and of what the call is given.
pub trait Host: View + Sized {
    /// Holds of a host whose hooks answer `Continue` now and after any call.
    spec fn hooks_continue(m: Self::V) -> bool;

    /// What the pre-step hook answers for frame `f`.
    spec fn pre_step_answer(m: Self::V, f: FrameModel) -> InstructionResult;

    /// The host after its pre-step hook has seen frame `f`.
    spec fn after_pre_step(m: Self::V, f: FrameModel) -> Self::V;

    /// What the post-step hook answers for frame `f`, which the instruction
    /// left with `result`.
    spec fn post_step_answer(m: Self::V, f: FrameModel, result: InstructionResult) -> InstructionResult;

    /// The host after its post-step hook has seen frame `f` and `result`.
    spec fn after_post_step(m: Self::V, f: FrameModel, result: InstructionResult) -> Self::V;

    /// The host after a storage write of `value` under `key`.
    spec fn after_sstore(m: Self::V, key: u64, value: u64) -> Self::V;

    /// Called before each instruction, with the frame as it stands.
    fn step(&mut self, interp: &Interpreter) -> (r: InstructionResult)
        ensures
            r == Self::pre_step_answer(old(self)@, interp@),
            final(self)@ == Self::after_pre_step(old(self)@, interp@),
            Self::hooks_continue(old(self)@) ==> r == InstructionResult::Continue
                && Self::hooks_continue(final(self)@),
    ;

    /// Called after each instruction, with the frame and the signal it left.
    fn step_end(&mut self, interp: &Interpreter, result: InstructionResult) -> (r: InstructionResult)
        ensures
            r == Self::post_step_answer(old(self)@, interp@, result),
            final(self)@ == Self::after_post_step(old(self)@, interp@, result),
            Self::hooks_continue(old(self)@) ==> r == InstructionResult::Continue
                && Self::hooks_continue(final(self)@),
    ;

    /// Records a storage write of the frame's account.
    fn sstore(&mut self, key: u64, value: u64)
        ensures
            final(self)@ == Self::after_sstore(old(self)@, key, value),
            Self::hooks_continue(old(self)@) ==> Self::hooks_continue(final(self)@),
    ;
}

/// The host after the storage writes `w`, in order.
pub open spec fn apply_writes<H: Host>(m: H::V, w: Seq<(u64, u64)>) -> H::V
    decreases w.len(),
{
    if w.len() == 0 {
        m
    } else {
        H::after_sstore(apply_writes::<H>(m, w.drop_last()), w.last().0, w.last().1)
    }
}

/// Writing `a` and then `b` is writing `a + b`.
pub proof fn lemma_apply_writes_concat<H: Host>(m: H::V, a: Seq<(u64, u64)>, b: Seq<(u64, u64)>)
    ensures
        apply_writes::<H>(apply_writes::<H>(m, a), b) == apply_writes::<H>(m, a + b),
    decreases b.len(),
{
    if b.len() > 0 {
        lemma_apply_writes_concat::<H>(m, a, b.drop_last());
        assert((a + b).drop_last() =~= a + b.drop_last());
    } else {
        assert(a + b =~= a);
    }
}

/// A host with no inspection and an in-memory log of storage writes.
#[derive(Debug)]
pub struct DummyHost {
    writes: Vec<(u64, u64)>,
}

impl View for DummyHost {
    type V = Seq<(u64, u64)>;

    /// The storage writes, in order, as (key, value).
    closed spec fn view(&self) -> Seq<(u64, u64)> {
        self.writes@
    }
}

impl DummyHost {
    pub fn new() -> (r: DummyHost)
        ensures
            r@ == Seq::<(u64, u64)>::empty(),
    {
        DummyHost { writes: Vec::new() }
    }

    /// The storage writes, in order, as (key, value).
    pub fn writes(&self) -> (r: &Vec<(u64, u64)>)
        ensures
            r@ == self@,
    {
        &self.writes
    }
}

impl Host for DummyHost {
    open spec fn hooks_continue(m: Seq<(u64, u64)>) -> bool {
        true
    }

    open spec fn pre_step_answer(m: Seq<(u64, u64)>, f: FrameModel) -> InstructionResult {
        InstructionResult::Continue
    }

    open spec fn after_pre_step(m: Seq<(u64, u64)>, f: FrameModel) -> Seq<(u64, u64)> {
        m
    }

    open spec fn post_step_answer(
        m: Seq<(u64, u64)>,
        f: FrameModel,
        result: InstructionResult,
    ) -> InstructionResult {
        InstructionResult::Continue
    }

    open spec fn after_post_step(
        m: Seq<(u64, u64)>,
        f: FrameModel,
        result: InstructionResult,
    ) -> Seq<(u64, u64)> {
        m
    }

    open spec fn after_sstore(m: Seq<(u64, u64)>, key: u64, value: u64) -> Seq<(u64, u64)> {
        m.push((key, value))
    }

    fn step(&mut self, interp: &Interpreter) -> (r: InstructionResult) {
        InstructionResult::Continue
    }

    fn step_end(&mut self, interp: &Interpreter, result: InstructionResult) -> (r: InstructionResult) {
        InstructionResult::Continue
    }

    fn sstore(&mut self, key: u64, value: u64) {
        self.writes.push((key, value));
    }
}

/// What a `StepLimitHost` holds.
pub struct StepLimitModel {
    pub steps: u64,
    pub limit: u64,
    pub at_end: bool,
    pub writes: Seq<(u64, u64)>,
}

/// A tracer that lets a run execute at most `limit` instructions. Past the
/// limit it stops the run with `FatalExternalError`: before the next
/// instruction, or, with `at_end`, in the post-step hook of the last one,
/// replacing whatever signal that instruction left.
#[derive(Debug)]
pub struct StepLimitHost {
    steps: u64,
    limit: u64,
    at_end: bool,
    writes: Vec<(u64, u64)>,
}

impl View for StepLimitHost {
    type V = StepLimitModel;

    closed spec fn view(&self) -> StepLimitModel {
        StepLimitModel {
            steps: self.steps,
            limit: self.limit,
            at_end: self.at_end,
            writes: self.writes@,
        }
    }
}

impl StepLimitHost {
    pub fn new(limit: u64, at_end: bool) -> (r: StepLimitHost)
        ensures
            r@ == (StepLimitModel { steps: 0, limit, at_end, writes: Seq::empty() }),
    {
        StepLimitHost { steps: 0, limit, at_end, writes: Vec::new() }
    }

    /// Instructions seen so far.
    pub fn steps(&self) -> (r: u64)
        ensures
            r == self@.steps,
    {
        self.steps
    }

    /// The storage writes, in order, as (key, value).
    pub fn storage_writes(&self) -> (r: &Vec<(u64, u64)>)
        ensures
            r@ == self@.writes,
    {
        &self.writes
    }
}

impl Host for StepLimitHost {
    open spec fn hooks_continue(m: StepLimitModel) -> bool {
        false
    }

    open spec fn pre_step_answer(m: StepLimitModel, f: FrameModel) -> InstructionResult {
        if !m.at_end && m.steps >= m.limit {
            InstructionResult::FatalExternalError
        } else {
            InstructionResult::Continue
        }
    }

    open spec fn after_pre_step(m: StepLimitModel, f: FrameModel) -> StepLimitModel {
        m
    }

    open spec fn post_step_answer(
        m: StepLimitModel,
        f: FrameModel,
        result: InstructionResult,
    ) -> InstructionResult {
        if m.at_end && m.steps + 1 >= m.limit {
            InstructionResult::FatalExternalError
        } else {
            InstructionResult::Continue
        }
    }

    open spec fn after_post_step(
        m: StepLimitModel,
        f: FrameModel,
        result: InstructionResult,
    ) -> StepLimitModel {
        StepLimitModel {
            steps: if m.steps < u64::MAX {
                (m.steps + 1) as u64
            } else {
                m.steps
            },
            ..m
        }
    }

    open spec fn after_sstore(m: StepLimitModel, key: u64, value: u64) -> StepLimitModel {
        StepLimitModel { writes: m.writes.push((key, value)), ..m }
    }

    fn step(&mut self, interp: &Interpreter) -> (r: InstructionResult) {
        if !self.at_end && self.steps >= self.limit {
            InstructionResult::FatalExternalError
        } else {
            InstructionResult::Continue
        }
    }

    fn step_end(&mut self, interp: &Interpreter, result: InstructionResult) -> (r: InstructionResult) {
        let stop = self.at_end && (self.limit == 0 || self.steps >= self.limit - 1);
        if self.steps < u64::MAX {
            self.steps = self.steps + 1;
        }
        if stop {
            InstructionResult::FatalExternalError
        } else {
            InstructionResult::Continue
        }
    }

    fn sstore(&mut self, key: u64, value: u64) {
        self.writes.push((key, value));
    }
}

} // verus!
