//! The execution engine: a program counter driven over an immutable
//! program, one instruction per step, with checked jump bounds.
//!
//! The engine runs state-only instructions itself. When it reaches an
//! instruction with an external effect it stops with a resolved effect
//! request; an outer driver performs the effect and resumes the run with
//! the collaborator's response. A step budget bounds each call, so a
//! program that jumps forever cannot hold the engine: the run comes back
//! with its state and can be resumed.

#![verifier::loop_isolation(false)]

use vstd::prelude::*;

use crate::actions::{
    run_action_spec, Action, ActionModel, ActionOutcome, ActionStepModel, EffectRequest, ReqModel,
    ShortcutResult, SignalModel,
};
use crate::errors::{EngineError, ErrModel};
use crate::vars::{Entries, VariableStore};

verus! {

// ---------------------------------------------------------------------------
// Execution state
// ---------------------------------------------------------------------------

/// The mutable state of one run: the program counter, the input
/// register, and the variable store. Created fresh per trigger.
#[derive(Debug)]
pub struct ExecState {
    pub pc: usize,
    pub input: String,
    pub variables: VariableStore,
}

/// Abstract form of the execution state.
pub struct StateModel {
    pub pc: int,
    pub input: Seq<char>,
    pub variables: Entries,
}

impl View for ExecState {
    type V = StateModel;

    open spec fn view(&self) -> StateModel {
        StateModel { pc: self.pc as int, input: self.input@, variables: self.variables@ }
    }
}

/// The fresh state a trigger starts from: counter at zero, the given
/// initial input, no variables.
pub fn initial_state(initial_input: String) -> (r: ExecState)
    ensures
        r@.pc == 0,
        r@.input == initial_input@,
        r@.variables == Seq::<(Seq<char>, Seq<char>)>::empty(),
        r.variables.wf(),
{
    ExecState { pc: 0, input: initial_input, variables: VariableStore::new() }
}

/// The character views of a program.
pub open spec fn prog_view(program: Seq<Action>) -> Seq<ActionModel> {
    program.map_values(|a: Action| a@)
}

// ---------------------------------------------------------------------------
// Applying a control-flow signal to the program counter
// ---------------------------------------------------------------------------

/// Abstract outcome of applying a signal: the next counter and input,
/// a halt, or a bounds error.
pub enum SigStepModel {
    Next { pc: int, input: Seq<char> },
    Halt(Seq<char>),
    Bad(ErrModel),
}

/// How a signal moves the counter. An absolute jump to `t` is legal
/// exactly when `0 <= t < len`; a relative jump forward by `m` from `i`
/// exactly when `i + m < len`, backward exactly when `m <= i`.
pub open spec fn apply_signal_spec(len: int, pc: int, sig: SignalModel) -> SigStepModel {
    match sig {
        SignalModel::Success(out) => SigStepModel::Next { pc: pc + 1, input: out },
        SignalModel::GoToStep { output, step } => {
            if 0 <= step < len {
                SigStepModel::Next { pc: step, input: output }
            } else {
                SigStepModel::Bad(ErrModel::JumpOutOfBounds { from: pc, target: step, len })
            }
        },
        SignalModel::GoToStepRelative { output, step, sign_is_positive } => {
            if sign_is_positive {
                if pc + step < len {
                    SigStepModel::Next { pc: pc + step, input: output }
                } else {
                    SigStepModel::Bad(
                        ErrModel::RelativeJumpOutOfBounds {
                            from: pc,
                            magnitude: step,
                            forward: true,
                            len,
                        },
                    )
                }
            } else {
                if step <= pc {
                    SigStepModel::Next { pc: pc - step, input: output }
                } else {
                    SigStepModel::Bad(
                        ErrModel::RelativeJumpOutOfBounds {
                            from: pc,
                            magnitude: step,
                            forward: false,
                            len,
                        },
                    )
                }
            }
        },
        SignalModel::EndProgram(out) => SigStepModel::Halt(out),
    }
}

/// The executable outcome of applying a signal that did not fail.
pub enum SignalStep {
    Next { pc: usize, input: String },
    Halt(String),
}

/// Apply one control-flow signal to the counter.
///
/// An absolute jump to target `t` resumes execution at instruction `t`
/// exactly when `0 <= t < program_len`; `t == program_len` and anything
/// beyond is a bounds error. A relative jump forward by `m` from `pc`
/// succeeds exactly when `pc + m < program_len`; backward by `m` exactly
/// when `m <= pc`.
pub fn apply_signal(program_len: usize, pc: usize, signal: ShortcutResult) -> (r: Result<
    SignalStep,
    EngineError,
>)
    requires
        pc < program_len,
    ensures
        match apply_signal_spec(program_len as int, pc as int, signal@) {
            SigStepModel::Next { pc: p2, input } => r matches Ok(SignalStep::Next { pc: q, input: s })
                && q as int == p2 && s@ == input && q <= program_len,
            SigStepModel::Halt(out) => r matches Ok(SignalStep::Halt(o)) && o@ == out,
            SigStepModel::Bad(e) => r matches Err(err) && err@ == e,
        },
{
    match signal {
        ShortcutResult::Success(out) => Ok(SignalStep::Next { pc: pc + 1, input: out }),
        ShortcutResult::GoToStep { output, step } => {
            if step < program_len {
                Ok(SignalStep::Next { pc: step, input: output })
            } else {
                Err(EngineError::JumpOutOfBounds { from: pc, target: step, len: program_len })
            }
        },
        ShortcutResult::GoToStepRelative { output, step, sign_is_positive } => {
            if sign_is_positive {
                if step < program_len - pc {
                    Ok(SignalStep::Next { pc: pc + step, input: output })
                } else {
                    Err(
                        EngineError::RelativeJumpOutOfBounds {
                            from: pc,
                            magnitude: step,
                            forward: true,
                            len: program_len,
                        },
                    )
                }
            } else {
                if step <= pc {
                    Ok(SignalStep::Next { pc: pc - step, input: output })
                } else {
                    Err(
                        EngineError::RelativeJumpOutOfBounds {
                            from: pc,
                            magnitude: step,
                            forward: false,
                            len: program_len,
                        },
                    )
                }
            }
        },
        ShortcutResult::EndProgram(out) => Ok(SignalStep::Halt(out)),
    }
}

// ---------------------------------------------------------------------------
// One step, and a bounded run, of the machine
// ---------------------------------------------------------------------------

/// Abstract outcome of one machine step.
pub enum StepModel {
    Cont(StateModel),
    Pend(StateModel, ReqModel),
    Halted(Seq<char>),
    Failed(int, ErrModel),
}

/// One step of the machine: at the end of the program, halt with the
/// current input; otherwise execute the instruction under the counter
/// and move the counter by its signal, stop with an effect request, or
/// fail at this step.
pub open spec fn spec_step(prog: Seq<ActionModel>, st: StateModel) -> StepModel {
    if !(0 <= st.pc < prog.len()) {
        StepModel::Halted(st.input)
    } else {
        match run_action_spec(prog[st.pc], st.input, st.variables) {
            ActionStepModel::Fail(e) => StepModel::Failed(st.pc, e),
            ActionStepModel::Effect(req, e2) => StepModel::Pend(
                StateModel { pc: st.pc, input: st.input, variables: e2 },
                req,
            ),
            ActionStepModel::Signal(sig, e2) => {
                match apply_signal_spec(prog.len() as int, st.pc, sig) {
                    SigStepModel::Next { pc, input } => StepModel::Cont(
                        StateModel { pc, input, variables: e2 },
                    ),
                    SigStepModel::Halt(out) => StepModel::Halted(out),
                    SigStepModel::Bad(e) => StepModel::Failed(st.pc, e),
                }
            },
        }
    }
}

/// How one call of the engine ends.
pub enum OutcomeModel {
    Halted(Seq<char>),
    Pending(StateModel, ReqModel),
    Failed(int, ErrModel),
    OutOfSteps(StateModel),
}

/// A bounded run: step until the program halts, fails, asks for an
/// effect, or the budget is spent. Yields the outcome and the budget
/// left; each executed instruction costs one step.
pub open spec fn spec_run(prog: Seq<ActionModel>, st: StateModel, fuel: nat) -> (OutcomeModel, nat)
    decreases fuel,
{
    if !(0 <= st.pc < prog.len()) {
        (OutcomeModel::Halted(st.input), fuel)
    } else if fuel == 0 {
        (OutcomeModel::OutOfSteps(st), 0)
    } else {
        match spec_step(prog, st) {
            StepModel::Cont(st2) => spec_run(prog, st2, (fuel - 1) as nat),
            StepModel::Pend(st2, req) => (OutcomeModel::Pending(st2, req), (fuel - 1) as nat),
            StepModel::Halted(out) => (OutcomeModel::Halted(out), (fuel - 1) as nat),
            StepModel::Failed(i, e) => (OutcomeModel::Failed(i, e), (fuel - 1) as nat),
        }
    }
}

/// How one call of the engine ends.
#[derive(Debug)]
pub enum RunOutcome {
    /// The program ended; this is its overall output.
    Halted(String),
    /// An instruction needs an external effect: perform the request,
    /// then resume from this state with the response.
    Pending { state: ExecState, request: EffectRequest },
    /// A fatal error at the given step aborted the run.
    Failed { step: usize, error: EngineError },
    /// The step budget ran out; resume from this state to continue.
    OutOfSteps { state: ExecState },
}

impl View for RunOutcome {
    type V = OutcomeModel;

    open spec fn view(&self) -> OutcomeModel {
        match self {
            RunOutcome::Halted(out) => OutcomeModel::Halted(out@),
            RunOutcome::Pending { state, request } => OutcomeModel::Pending(state@, request@),
            RunOutcome::Failed { step, error } => OutcomeModel::Failed(*step as int, error@),
            RunOutcome::OutOfSteps { state } => OutcomeModel::OutOfSteps(state@),
        }
    }
}

/// Drive the machine: execute instructions until the program halts,
/// fails, needs an external effect, or `max_steps` instructions have
/// run. An empty program halts at once with the initial input as its
/// output.
pub fn run(program: &Vec<Action>, state: ExecState, max_steps: u64) -> (r: RunOutcome)
    ensures
        r@ == spec_run(prog_view(program@), state@, max_steps as nat).0,
        program@.len() == 0 ==> (r matches RunOutcome::Halted(out) && out@ == state@.input),
{
    let ghost prog = prog_view(program@);
    let n = program.len();
    let mut st = state;
    let mut left = max_steps;
    loop
        invariant
            n == program@.len(),
            prog == prog_view(program@),
            spec_run(prog, state@, max_steps as nat) == spec_run(prog, st@, left as nat),
        decreases left,
    {
        if st.pc >= n {
            return RunOutcome::Halted(st.input);
        }
        if left == 0 {
            return RunOutcome::OutOfSteps { state: st };
        }
        left = left - 1;
        let ghost pre = st@;
        let ghost fuel_pre = left + 1;
        proof {
            assert(prog[pre.pc] == program@[pre.pc]@);
        }
        let step_index = st.pc;
        let action = &program[step_index];
        match action.run(st.input.as_str(), &mut st.variables) {
            Err(e) => {
                proof {
                    assert(spec_step(prog, pre) == StepModel::Failed(pre.pc, e@));
                }
                return RunOutcome::Failed { step: step_index, error: e };
            },
            Ok(ActionOutcome::Effect(request)) => {
                proof {
                    assert(spec_step(prog, pre) == StepModel::Pend(st@, request@));
                }
                return RunOutcome::Pending { state: st, request };
            },
            Ok(ActionOutcome::Signal(sig)) => {
                match apply_signal(n, step_index, sig) {
                    Err(e) => {
                        proof {
                            assert(spec_step(prog, pre) == StepModel::Failed(pre.pc, e@));
                        }
                        return RunOutcome::Failed { step: step_index, error: e };
                    },
                    Ok(SignalStep::Halt(out)) => {
                        proof {
                            assert(spec_step(prog, pre) == StepModel::Halted(out@));
                        }
                        return RunOutcome::Halted(out);
                    },
                    Ok(SignalStep::Next { pc, input }) => {
                        st.pc = pc;
                        st.input = input;
                        proof {
                            assert(spec_step(prog, pre) == StepModel::Cont(st@));
                            assert(spec_run(prog, pre, fuel_pre as nat) == spec_run(
                                prog,
                                st@,
                                left as nat,
                            ));
                        }
                    },
                }
            },
        }
    }
}

// ---------------------------------------------------------------------------
// Resuming after an effect
// ---------------------------------------------------------------------------

/// What the driver hands back after performing an effect request.
#[derive(Debug)]
pub enum EffectResponse {
    /// The effect succeeded and produced no text; the input passes
    /// through unchanged.
    Unit,
    /// The effect succeeded and its text becomes the new input.
    Text(String),
    /// The effect failed; the run aborts with this diagnostic.
    Failure(String),
}

/// Abstract form of an effect response.
pub enum RespModel {
    Unit,
    Text(Seq<char>),
    Failure(Seq<char>),
}

impl View for EffectResponse {
    type V = RespModel;

    open spec fn view(&self) -> RespModel {
        match self {
            EffectResponse::Unit => RespModel::Unit,
            EffectResponse::Text(t) => RespModel::Text(t@),
            EffectResponse::Failure(m) => RespModel::Failure(m@),
        }
    }
}

/// How a response moves the paused state on: success advances the
/// counter past the effectful instruction, keeping or replacing the
/// input; failure aborts the run.
pub open spec fn apply_response_spec(st: StateModel, resp: RespModel) -> Result<
    StateModel,
    ErrModel,
> {
    match resp {
        RespModel::Unit => Ok(StateModel { pc: st.pc + 1, input: st.input, variables: st.variables }),
        RespModel::Text(t) => Ok(StateModel { pc: st.pc + 1, input: t, variables: st.variables }),
        RespModel::Failure(m) => Err(ErrModel::CollaboratorFailed { message: m }),
    }
}

/// Fold a collaborator's response into a paused state, so that the run
/// can continue with another call of `run`.
pub fn apply_response(state: ExecState, response: EffectResponse) -> (r: Result<
    ExecState,
    EngineError,
>)
    requires
        state@.pc < usize::MAX,
    ensures
        match apply_response_spec(state@, response@) {
            Ok(s2) => r matches Ok(x) && x@ == s2,
            Err(e) => r matches Err(err) && err@ == e,
        },
{
    match response {
        EffectResponse::Unit => Ok(
            ExecState { pc: state.pc + 1, input: state.input, variables: state.variables },
        ),
        EffectResponse::Text(t) => Ok(
            ExecState { pc: state.pc + 1, input: t, variables: state.variables },
        ),
        EffectResponse::Failure(m) => Err(EngineError::CollaboratorFailed { message: m }),
    }
}

// ---------------------------------------------------------------------------
// Laws of the machine
// ---------------------------------------------------------------------------

/// Is this instruction one of the four jumps?
pub open spec fn is_jump(a: ActionModel) -> bool {
    a is GoToStep || a is GoToStepRelative || a is IfElse || a is IfElseRelative
}

/// Does this instruction touch only the input register and the store?
pub open spec fn is_state_only(a: ActionModel) -> bool {
    a is SetVariable || a is IncrementVariable || a is DeleteVariable
}

/// A program of variable writes alone: no jumps, no halt, no effects.
pub open spec fn straightline_program(prog: Seq<ActionModel>) -> bool {
    forall|i: int| 0 <= i < prog.len() ==> is_state_only(#[trigger] prog[i])
}

/// An empty program halts at once, with the initial input as its
/// output, whatever the step budget.
pub proof fn lemma_empty_program_halts(prog: Seq<ActionModel>, st: StateModel, fuel: nat)
    requires
        prog.len() == 0,
        st.pc >= 0,
    ensures
        spec_run(prog, st, fuel) == (OutcomeModel::Halted(st.input), fuel),
{
}

/// A step that executes anything but a jump and continues moves the
/// program counter forward by exactly one.
pub proof fn lemma_non_jump_increments_pc(prog: Seq<ActionModel>, st: StateModel)
    requires
        0 <= st.pc < prog.len(),
        !is_jump(prog[st.pc]),
    ensures
        match spec_step(prog, st) {
            StepModel::Cont(s2) => s2.pc == st.pc + 1,
            _ => true,
        },
{
    match prog[st.pc] {
        ActionModel::Debug => {},
        ActionModel::SetVariable { .. } => {},
        ActionModel::IncrementVariable { .. } => {},
        ActionModel::DeleteVariable { .. } => {},
        ActionModel::Sleep { .. } => {},
        ActionModel::EndProgram => {},
        ActionModel::GoToStep { .. } => {},
        ActionModel::GoToStepRelative { .. } => {},
        ActionModel::IfElse { .. } => {},
        ActionModel::IfElseRelative { .. } => {},
        ActionModel::Spawn { .. } => {},
        ActionModel::PrintConsole { .. } => {},
        ActionModel::ShowDialog { .. } => {},
        ActionModel::ReadClipboard => {},
        ActionModel::WriteClipboard { .. } => {},
        ActionModel::AskChatGPT { .. } => {},
    }
}

/// A program without jumps, halts or effects that runs to completion
/// executes exactly one step per remaining instruction: from counter
/// `pc` it halts after `len - pc` steps.
pub proof fn lemma_straightline_run_length(prog: Seq<ActionModel>, st: StateModel, fuel: nat)
    requires
        straightline_program(prog),
        0 <= st.pc <= prog.len(),
        spec_run(prog, st, fuel).0 is Halted,
    ensures
        fuel - spec_run(prog, st, fuel).1 == prog.len() - st.pc,
    decreases fuel,
{
    if st.pc < prog.len() {
        assert(is_state_only(prog[st.pc]));
        if fuel > 0 {
            match spec_step(prog, st) {
                StepModel::Cont(s2) => {
                    lemma_non_jump_increments_pc(prog, st);
                    assert(s2.pc == st.pc + 1);
                    lemma_straightline_run_length(prog, s2, (fuel - 1) as nat);
                },
                StepModel::Pend(..) => {
                    assert(false);
                },
                StepModel::Halted(..) => {
                    assert(false);
                },
                StepModel::Failed(..) => {},
            }
        }
    }
}

/// With one step of budget per remaining instruction, a program without
/// jumps, halts or effects never runs out of steps: the run ends in a
/// halt, or in a fatal error at the failing step.
pub proof fn lemma_straightline_run_completes(prog: Seq<ActionModel>, st: StateModel, fuel: nat)
    requires
        straightline_program(prog),
        0 <= st.pc <= prog.len(),
        fuel >= prog.len() - st.pc,
    ensures
        spec_run(prog, st, fuel).0 is Halted || spec_run(prog, st, fuel).0 is Failed,
    decreases fuel,
{
    if st.pc < prog.len() {
        assert(is_state_only(prog[st.pc]));
        match spec_step(prog, st) {
            StepModel::Cont(s2) => {
                lemma_non_jump_increments_pc(prog, st);
                assert(s2.pc == st.pc + 1);
                lemma_straightline_run_completes(prog, s2, (fuel - 1) as nat);
            },
            StepModel::Pend(..) => {
                assert(false);
            },
            StepModel::Halted(..) => {
                assert(false);
            },
            StepModel::Failed(..) => {},
        }
    }
}

} // verus!
