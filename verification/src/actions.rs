//! The instruction set: every instruction a program may contain, the
//! control-flow signal each one produces, and the effect requests that
//! instructions with external effects hand to the driver.

#![verifier::loop_isolation(false)]

use vstd::prelude::*;

use crate::errors::{EngineError, ErrModel};
use crate::evaluation::{
    eval_condition_spec, evaluate_condition, replace_variables_tag as eval_replace_variables_tag,
    replace_variables_tag_vec as eval_replace_variables_tag_vec, subst_spec, subst_vec_spec,
};
use crate::text::{
    contains_seq, i64_to_dec, i64_to_string, lower_of, parse_i64, parse_u64, parse_u64_spec,
    parse_usize, parse_usize_spec, parse_i64_spec, replace_all, replace_all_spec, str_contains,
    str_eq, to_lowercase_str,
};
use crate::vars::{
    insert_spec, lookup_spec, pairs_view, remove_spec, Entries, VariableStore,
};

verus! {

/// The character views of a list of strings.
pub open spec fn strs_view(s: Seq<String>) -> Seq<Seq<char>> {
    Seq::new(s.len(), |i: int| s[i]@)
}

// ---------------------------------------------------------------------------
// Instructions
// ---------------------------------------------------------------------------

/// One instruction of a program. Each string parameter is a template:
/// raw text that may hold `{{input}}` or `{{name}}` tags, resolved only
/// when the instruction executes.
#[derive(Clone, Debug)]
pub enum Action {
    /// Show the current input and variables through the driver. Returns input.
    Debug,
    /// Set a variable; the name `input` addresses the input register
    /// directly and takes the value untouched. Returns input.
    SetVariable { name: String, value: String },
    /// Add a signed integer amount to a variable, or seed it with the
    /// amount when it holds no integer. Returns input.
    IncrementVariable { name: String, amount: String },
    /// Delete a variable; deleting `input` clears the input register.
    /// Returns input.
    DeleteVariable { name: String },
    /// Block the run for a number of milliseconds. Returns input.
    Sleep { duration_ms: String },
    /// End the program; the current input becomes the overall result.
    EndProgram,
    /// Jump to an absolute step index. Returns input.
    GoToStep { step: String },
    /// Jump forward or backward by a relative step count. Returns input.
    GoToStepRelative { step: String },
    /// Jump to one of two absolute step indexes depending on a condition.
    /// Returns input.
    IfElse { operation: String, a: String, b: String, step_true: String, step_false: String },
    /// Jump by one of two relative step counts depending on a condition.
    /// Returns input.
    IfElseRelative {
        operation: String,
        a: String,
        b: String,
        step_true: String,
        step_false: String,
    },
    /// Run a system command. Returns the command's output.
    Spawn { command: String, args: Vec<String> },
    /// Print to the console. Returns the printed content.
    PrintConsole { content: String },
    /// Show a native dialog box. Returns input.
    ShowDialog { title: String, body: String },
    /// Read the clipboard. Returns the clipboard content.
    ReadClipboard,
    /// Write to the clipboard. Returns input.
    WriteClipboard { content: String },
    /// Ask the text-generation service. Returns the answer.
    AskChatGPT { pre_prompt: String, prompt: String },
}

/// Abstract form of an instruction, over character sequences.
pub enum ActionModel {
    Debug,
    SetVariable { name: Seq<char>, value: Seq<char> },
    IncrementVariable { name: Seq<char>, amount: Seq<char> },
    DeleteVariable { name: Seq<char> },
    Sleep { duration_ms: Seq<char> },
    EndProgram,
    GoToStep { step: Seq<char> },
    GoToStepRelative { step: Seq<char> },
    IfElse {
        operation: Seq<char>,
        a: Seq<char>,
        b: Seq<char>,
        step_true: Seq<char>,
        step_false: Seq<char>,
    },
    IfElseRelative {
        operation: Seq<char>,
        a: Seq<char>,
        b: Seq<char>,
        step_true: Seq<char>,
        step_false: Seq<char>,
    },
    Spawn { command: Seq<char>, args: Seq<Seq<char>> },
    PrintConsole { content: Seq<char> },
    ShowDialog { title: Seq<char>, body: Seq<char> },
    ReadClipboard,
    WriteClipboard { content: Seq<char> },
    AskChatGPT { pre_prompt: Seq<char>, prompt: Seq<char> },
}

impl View for Action {
    type V = ActionModel;

    open spec fn view(&self) -> ActionModel {
        match self {
            Action::Debug => ActionModel::Debug,
            Action::SetVariable { name, value } => ActionModel::SetVariable {
                name: name@,
                value: value@,
            },
            Action::IncrementVariable { name, amount } => ActionModel::IncrementVariable {
                name: name@,
                amount: amount@,
            },
            Action::DeleteVariable { name } => ActionModel::DeleteVariable { name: name@ },
            Action::Sleep { duration_ms } => ActionModel::Sleep { duration_ms: duration_ms@ },
            Action::EndProgram => ActionModel::EndProgram,
            Action::GoToStep { step } => ActionModel::GoToStep { step: step@ },
            Action::GoToStepRelative { step } => ActionModel::GoToStepRelative { step: step@ },
            Action::IfElse { operation, a, b, step_true, step_false } => ActionModel::IfElse {
                operation: operation@,
                a: a@,
                b: b@,
                step_true: step_true@,
                step_false: step_false@,
            },
            Action::IfElseRelative { operation, a, b, step_true, step_false } => {
                ActionModel::IfElseRelative {
                    operation: operation@,
                    a: a@,
                    b: b@,
                    step_true: step_true@,
                    step_false: step_false@,
                }
            },
            Action::Spawn { command, args } => ActionModel::Spawn {
                command: command@,
                args: strs_view(args@),
            },
            Action::PrintConsole { content } => ActionModel::PrintConsole { content: content@ },
            Action::ShowDialog { title, body } => ActionModel::ShowDialog {
                title: title@,
                body: body@,
            },
            Action::ReadClipboard => ActionModel::ReadClipboard,
            Action::WriteClipboard { content } => ActionModel::WriteClipboard {
                content: content@,
            },
            Action::AskChatGPT { pre_prompt, prompt } => ActionModel::AskChatGPT {
                pre_prompt: pre_prompt@,
                prompt: prompt@,
            },
        }
    }
}

// ---------------------------------------------------------------------------
// Control-flow signals
// ---------------------------------------------------------------------------

/// The control-flow signal an executed instruction hands the engine.
#[derive(Debug)]
pub enum ShortcutResult {
    /// Fall through to the next step with a new input value.
    Success(String),
    /// Jump to an absolute step index.
    GoToStep { output: String, step: usize },
    /// Jump by a step count, forward or backward.
    GoToStepRelative { output: String, step: usize, sign_is_positive: bool },
    /// End the program with this output.
    EndProgram(String),
}

/// Abstract form of a control-flow signal.
pub enum SignalModel {
    Success(Seq<char>),
    GoToStep { output: Seq<char>, step: int },
    GoToStepRelative { output: Seq<char>, step: int, sign_is_positive: bool },
    EndProgram(Seq<char>),
}

impl View for ShortcutResult {
    type V = SignalModel;

    open spec fn view(&self) -> SignalModel {
        match self {
            ShortcutResult::Success(s) => SignalModel::Success(s@),
            ShortcutResult::GoToStep { output, step } => SignalModel::GoToStep {
                output: output@,
                step: *step as int,
            },
            ShortcutResult::GoToStepRelative { output, step, sign_is_positive } => {
                SignalModel::GoToStepRelative {
                    output: output@,
                    step: *step as int,
                    sign_is_positive: *sign_is_positive,
                }
            },
            ShortcutResult::EndProgram(s) => SignalModel::EndProgram(s@),
        }
    }
}

// ---------------------------------------------------------------------------
// Effect requests
// ---------------------------------------------------------------------------

/// What an effectful instruction asks the driver to do, with every
/// template already resolved. The driver performs the effect and hands
/// back an `EffectResponse`.
#[derive(Debug)]
pub enum EffectRequest {
    /// Show the engine's state for debugging.
    Debug { input: String, variables: Vec<(String, String)> },
    /// Print a line to the console.
    PrintConsole { content: String },
    /// Show a native dialog box.
    ShowDialog { title: String, body: String },
    /// Block for this many milliseconds.
    Sleep { duration_ms: u64 },
    /// Run a system command and capture its output.
    Spawn { command: String, args: Vec<String> },
    /// Read the clipboard.
    ReadClipboard,
    /// Write the clipboard.
    WriteClipboard { content: String },
    /// Ask the text-generation service.
    AskAssistant { pre_prompt: String, prompt: String },
}

/// Abstract form of an effect request.
pub enum ReqModel {
    Debug { input: Seq<char>, variables: Entries },
    PrintConsole { content: Seq<char> },
    ShowDialog { title: Seq<char>, body: Seq<char> },
    Sleep { duration_ms: int },
    Spawn { command: Seq<char>, args: Seq<Seq<char>> },
    ReadClipboard,
    WriteClipboard { content: Seq<char> },
    AskAssistant { pre_prompt: Seq<char>, prompt: Seq<char> },
}

impl View for EffectRequest {
    type V = ReqModel;

    open spec fn view(&self) -> ReqModel {
        match self {
            EffectRequest::Debug { input, variables } => ReqModel::Debug {
                input: input@,
                variables: pairs_view(variables@),
            },
            EffectRequest::PrintConsole { content } => ReqModel::PrintConsole {
                content: content@,
            },
            EffectRequest::ShowDialog { title, body } => ReqModel::ShowDialog {
                title: title@,
                body: body@,
            },
            EffectRequest::Sleep { duration_ms } => ReqModel::Sleep {
                duration_ms: *duration_ms as int,
            },
            EffectRequest::Spawn { command, args } => ReqModel::Spawn {
                command: command@,
                args: strs_view(args@),
            },
            EffectRequest::ReadClipboard => ReqModel::ReadClipboard,
            EffectRequest::WriteClipboard { content } => ReqModel::WriteClipboard {
                content: content@,
            },
            EffectRequest::AskAssistant { pre_prompt, prompt } => ReqModel::AskAssistant {
                pre_prompt: pre_prompt@,
                prompt: prompt@,
            },
        }
    }
}

/// What executing one instruction came to: a control-flow signal, or an
/// effect request for the driver.
#[derive(Debug)]
pub enum ActionOutcome {
    Signal(ShortcutResult),
    Effect(EffectRequest),
}

/// Abstract form of an instruction's outcome, with the store it leaves.
pub enum ActionStepModel {
    Signal(SignalModel, Entries),
    Effect(ReqModel, Entries),
    Fail(ErrModel),
}

// ---------------------------------------------------------------------------
// What each instruction does, as functions of the abstract state
// ---------------------------------------------------------------------------

/// Setting a variable: the pseudo-variable `input` takes the raw value
/// as the new input with no substitution; any other name stores the
/// resolved value under the lowercased name. Yields (output, store).
pub open spec fn set_variable_spec(
    input: Seq<char>,
    entries: Entries,
    name: Seq<char>,
    value: Seq<char>,
) -> (Seq<char>, Entries) {
    if lower_of(name) == "input"@ {
        (value, entries)
    } else {
        (input, insert_spec(entries, lower_of(name), subst_spec(value, input, entries)))
    }
}

/// Deleting a variable: the pseudo-variable `input` clears the input
/// register; any other name drops the binding, absent names change
/// nothing. Yields (output, store).
pub open spec fn delete_variable_spec(input: Seq<char>, entries: Entries, name: Seq<char>) -> (
    Seq<char>,
    Entries,
) {
    if lower_of(name) == "input"@ {
        (Seq::<char>::empty(), entries)
    } else {
        (input, remove_spec(entries, lower_of(name)))
    }
}

/// Incrementing a variable: the resolved amount must parse as a signed
/// integer; when the variable (looked up under the lowercased name)
/// holds a signed integer the sum is stored, otherwise the amount alone;
/// the store key is the name exactly as given.
pub open spec fn increment_variable_spec(
    input: Seq<char>,
    entries: Entries,
    name: Seq<char>,
    amount: Seq<char>,
) -> Result<Entries, ErrModel> {
    let amount_resolved = subst_spec(amount, input, entries);
    match parse_i64_spec(amount_resolved) {
        None => Err(ErrModel::InvalidAmount { amount: amount_resolved }),
        Some(amt) => {
            let base = match lookup_spec(entries, lower_of(name)) {
                Some(v) => parse_i64_spec(v),
                None => None,
            };
            match base {
                Some(b) => if i64::MIN <= b + amt <= i64::MAX {
                    Ok(insert_spec(entries, name, i64_to_dec(b + amt)))
                } else {
                    Err(ErrModel::AmountOverflow)
                },
                None => Ok(insert_spec(entries, name, i64_to_dec(amt))),
            }
        },
    }
}

/// A resolved jump target must parse as a non-negative integer.
pub open spec fn parse_step_spec(s: Seq<char>) -> Result<int, ErrModel> {
    match parse_usize_spec(s) {
        Some(v) => Ok(v),
        None => Err(ErrModel::InvalidStep { step: s }),
    }
}

/// A relative jump target: the sign is negative exactly when the text
/// holds a `-` anywhere; every `-` and `+` is removed and the rest must
/// parse as a non-negative integer.
pub open spec fn parse_step_relative_spec(s: Seq<char>) -> Result<(int, bool), ErrModel> {
    let sign_is_positive = !contains_seq(s, "-"@);
    let cleaned = replace_all_spec(
        replace_all_spec(s, "-"@, Seq::<char>::empty()),
        "+"@,
        Seq::<char>::empty(),
    );
    match parse_usize_spec(cleaned) {
        Some(v) => Ok((v, sign_is_positive)),
        None => Err(ErrModel::InvalidStep { step: cleaned }),
    }
}

/// An absolute jump: resolve the target template, parse it. Yields
/// (output, target index).
pub open spec fn go_to_step_spec(input: Seq<char>, entries: Entries, step: Seq<char>) -> Result<
    (Seq<char>, int),
    ErrModel,
> {
    match parse_step_spec(subst_spec(step, input, entries)) {
        Ok(t) => Ok((input, t)),
        Err(e) => Err(e),
    }
}

/// A relative jump: resolve the target template, parse its sign and
/// magnitude. Yields (output, magnitude, sign).
pub open spec fn go_to_step_relative_spec(
    input: Seq<char>,
    entries: Entries,
    step: Seq<char>,
) -> Result<(Seq<char>, int, bool), ErrModel> {
    match parse_step_relative_spec(subst_spec(step, input, entries)) {
        Ok((m, pos)) => Ok((input, m, pos)),
        Err(e) => Err(e),
    }
}

/// A conditional absolute jump: resolve every template, parse both
/// targets, evaluate the condition, and jump to the branch taken.
pub open spec fn if_else_spec(
    input: Seq<char>,
    entries: Entries,
    operation: Seq<char>,
    a: Seq<char>,
    b: Seq<char>,
    step_true: Seq<char>,
    step_false: Seq<char>,
) -> Result<(Seq<char>, int), ErrModel> {
    let op = subst_spec(operation, input, entries);
    let ra = subst_spec(a, input, entries);
    let rb = subst_spec(b, input, entries);
    match parse_step_spec(subst_spec(step_true, input, entries)) {
        Err(e) => Err(e),
        Ok(t) => match parse_step_spec(subst_spec(step_false, input, entries)) {
            Err(e) => Err(e),
            Ok(f) => match eval_condition_spec(op, ra, rb) {
                Err(e) => Err(e),
                Ok(c) => Ok((input, if c {
                    t
                } else {
                    f
                })),
            },
        },
    }
}

/// A conditional relative jump, with the same template and parse order
/// as the absolute form.
pub open spec fn if_else_relative_spec(
    input: Seq<char>,
    entries: Entries,
    operation: Seq<char>,
    a: Seq<char>,
    b: Seq<char>,
    step_true: Seq<char>,
    step_false: Seq<char>,
) -> Result<(Seq<char>, int, bool), ErrModel> {
    let op = subst_spec(operation, input, entries);
    let ra = subst_spec(a, input, entries);
    let rb = subst_spec(b, input, entries);
    match parse_step_relative_spec(subst_spec(step_true, input, entries)) {
        Err(e) => Err(e),
        Ok((t, tp)) => match parse_step_relative_spec(subst_spec(step_false, input, entries)) {
            Err(e) => Err(e),
            Ok((f, fp)) => match eval_condition_spec(op, ra, rb) {
                Err(e) => Err(e),
                Ok(c) => Ok(
                    if c {
                        (input, t, tp)
                    } else {
                        (input, f, fp)
                    },
                ),
            },
        },
    }
}

/// What executing one instruction yields, as a function of the
/// instruction, the current input, and the store.
pub open spec fn run_action_spec(a: ActionModel, input: Seq<char>, entries: Entries) -> ActionStepModel {
    match a {
        ActionModel::Debug => ActionStepModel::Effect(
            ReqModel::Debug { input: input, variables: entries },
            entries,
        ),
        ActionModel::SetVariable { name, value } => {
            let (out, e2) = set_variable_spec(input, entries, name, value);
            ActionStepModel::Signal(SignalModel::Success(out), e2)
        },
        ActionModel::IncrementVariable { name, amount } => {
            match increment_variable_spec(input, entries, name, amount) {
                Ok(e2) => ActionStepModel::Signal(SignalModel::Success(input), e2),
                Err(e) => ActionStepModel::Fail(e),
            }
        },
        ActionModel::DeleteVariable { name } => {
            let (out, e2) = delete_variable_spec(input, entries, name);
            ActionStepModel::Signal(SignalModel::Success(out), e2)
        },
        ActionModel::Sleep { duration_ms } => {
            let resolved = subst_spec(duration_ms, input, entries);
            match parse_u64_spec(resolved) {
                Some(d) => ActionStepModel::Effect(ReqModel::Sleep { duration_ms: d }, entries),
                None => ActionStepModel::Fail(ErrModel::InvalidDuration { duration: resolved }),
            }
        },
        ActionModel::EndProgram => ActionStepModel::Signal(SignalModel::EndProgram(input), entries),
        ActionModel::GoToStep { step } => match go_to_step_spec(input, entries, step) {
            Ok((out, t)) => ActionStepModel::Signal(
                SignalModel::GoToStep { output: out, step: t },
                entries,
            ),
            Err(e) => ActionStepModel::Fail(e),
        },
        ActionModel::GoToStepRelative { step } => {
            match go_to_step_relative_spec(input, entries, step) {
                Ok((out, m, pos)) => ActionStepModel::Signal(
                    SignalModel::GoToStepRelative { output: out, step: m, sign_is_positive: pos },
                    entries,
                ),
                Err(e) => ActionStepModel::Fail(e),
            }
        },
        ActionModel::IfElse { operation, a, b, step_true, step_false } => {
            match if_else_spec(input, entries, operation, a, b, step_true, step_false) {
                Ok((out, t)) => ActionStepModel::Signal(
                    SignalModel::GoToStep { output: out, step: t },
                    entries,
                ),
                Err(e) => ActionStepModel::Fail(e),
            }
        },
        ActionModel::IfElseRelative { operation, a, b, step_true, step_false } => {
            match if_else_relative_spec(input, entries, operation, a, b, step_true, step_false) {
                Ok((out, m, pos)) => ActionStepModel::Signal(
                    SignalModel::GoToStepRelative { output: out, step: m, sign_is_positive: pos },
                    entries,
                ),
                Err(e) => ActionStepModel::Fail(e),
            }
        },
        ActionModel::Spawn { command, args } => ActionStepModel::Effect(
            ReqModel::Spawn {
                command: subst_spec(command, input, entries),
                args: subst_vec_spec(args, input, entries),
            },
            entries,
        ),
        ActionModel::PrintConsole { content } => ActionStepModel::Effect(
            ReqModel::PrintConsole { content: subst_spec(content, input, entries) },
            entries,
        ),
        ActionModel::ShowDialog { title, body } => ActionStepModel::Effect(
            ReqModel::ShowDialog {
                title: subst_spec(title, input, entries),
                body: subst_spec(body, input, entries),
            },
            entries,
        ),
        ActionModel::ReadClipboard => ActionStepModel::Effect(ReqModel::ReadClipboard, entries),
        ActionModel::WriteClipboard { content } => ActionStepModel::Effect(
            ReqModel::WriteClipboard { content: subst_spec(content, input, entries) },
            entries,
        ),
        ActionModel::AskChatGPT { pre_prompt, prompt } => ActionStepModel::Effect(
            ReqModel::AskAssistant {
                pre_prompt: subst_spec(pre_prompt, input, entries),
                prompt: subst_spec(prompt, input, entries),
            },
            entries,
        ),
    }
}

// ---------------------------------------------------------------------------
// The state-only instructions
// ---------------------------------------------------------------------------

/// The instructions that read and write only the input register and the
/// variable store.
pub struct CoreAction;

impl CoreAction {
    /// Set a variable. Setting the pseudo-variable `input` makes the raw
    /// value the next input, with no substitution applied to the value
    /// itself; setting any other name stores the resolved value under
    /// the lowercased name and passes the input through.
    pub fn set_variable(
        input_str: &str,
        variables: &mut VariableStore,
        name: &str,
        value: &str,
    ) -> (r: Result<ShortcutResult, EngineError>)
        ensures
            ({
                let (out, e2) = set_variable_spec(input_str@, old(variables)@, name@, value@);
                r matches Ok(sig) && sig@ == SignalModel::Success(out) && final(variables)@ == e2
            }),
            old(variables).wf() ==> final(variables).wf(),
    {
        let lowered = to_lowercase_str(name);
        if str_eq(lowered.as_str(), "input") {
            Ok(ShortcutResult::Success(String::from_str(value)))
        } else {
            let resolved = eval_replace_variables_tag(value, input_str, variables);
            variables.set(lowered, resolved);
            Ok(ShortcutResult::Success(String::from_str(input_str)))
        }
    }

    /// Delete a variable. Deleting the pseudo-variable `input` clears
    /// the input register; deleting any other name removes its binding,
    /// and an absent name is a no-op. The input passes through.
    pub fn delete_variable(input_str: &str, variables: &mut VariableStore, name: &str) -> (r:
        Result<ShortcutResult, EngineError>)
        ensures
            ({
                let (out, e2) = delete_variable_spec(input_str@, old(variables)@, name@);
                r matches Ok(sig) && sig@ == SignalModel::Success(out) && final(variables)@ == e2
            }),
            old(variables).wf() ==> final(variables).wf(),
    {
        let lowered = to_lowercase_str(name);
        if str_eq(lowered.as_str(), "input") {
            Ok(ShortcutResult::Success(String::new()))
        } else {
            variables.remove(lowered.as_str());
            Ok(ShortcutResult::Success(String::from_str(input_str)))
        }
    }

    /// End the program; the current input becomes the overall result.
    pub fn end_program(input_str: &str) -> (r: Result<ShortcutResult, EngineError>)
        ensures
            r matches Ok(sig) && sig@ == SignalModel::EndProgram(input_str@),
    {
        Ok(ShortcutResult::EndProgram(String::from_str(input_str)))
    }

    /// Jump to an absolute step: the resolved target must parse as a
    /// non-negative integer; bounds are checked by the engine when the
    /// jump is taken.
    pub fn go_to_step(input_str: &str, variables: &VariableStore, step: &str) -> (r: Result<
        ShortcutResult,
        EngineError,
    >)
        ensures
            match go_to_step_spec(input_str@, variables@, step@) {
                Ok(p) => r matches Ok(sig) && sig@ == SignalModel::GoToStep {
                    output: p.0,
                    step: p.1,
                },
                Err(e) => r matches Err(err) && err@ == e,
            },
    {
        let resolved = eval_replace_variables_tag(step, input_str, variables);
        match parse_step(resolved.as_str()) {
            Ok(t) => Ok(
                ShortcutResult::GoToStep { output: String::from_str(input_str), step: t },
            ),
            Err(e) => Err(e),
        }
    }

    /// Jump by a relative step: the resolved target's sign is negative
    /// exactly when it holds a `-`, and its magnitude must parse as a
    /// non-negative integer.
    pub fn go_to_step_relative(input_str: &str, variables: &VariableStore, step: &str) -> (r:
        Result<ShortcutResult, EngineError>)
        ensures
            match go_to_step_relative_spec(input_str@, variables@, step@) {
                Ok(p) => r matches Ok(sig) && sig@ == SignalModel::GoToStepRelative {
                    output: p.0,
                    step: p.1,
                    sign_is_positive: p.2,
                },
                Err(e) => r matches Err(err) && err@ == e,
            },
    {
        let resolved = eval_replace_variables_tag(step, input_str, variables);
        match parse_step_relative(resolved.as_str()) {
            Ok((m, pos)) => Ok(
                ShortcutResult::GoToStepRelative {
                    output: String::from_str(input_str),
                    step: m,
                    sign_is_positive: pos,
                },
            ),
            Err(e) => Err(e),
        }
    }

    /// Conditional absolute jump: resolve all five templates, parse both
    /// targets, evaluate the condition, and jump to the branch taken.
    pub fn if_else(
        input_str: &str,
        variables: &VariableStore,
        operation: &str,
        a: &str,
        b: &str,
        step_true: &str,
        step_false: &str,
    ) -> (r: Result<ShortcutResult, EngineError>)
        ensures
            match if_else_spec(
                input_str@,
                variables@,
                operation@,
                a@,
                b@,
                step_true@,
                step_false@,
            ) {
                Ok(p) => r matches Ok(sig) && sig@ == SignalModel::GoToStep {
                    output: p.0,
                    step: p.1,
                },
                Err(e) => r matches Err(err) && err@ == e,
            },
    {
        let op = eval_replace_variables_tag(operation, input_str, variables);
        let ra = eval_replace_variables_tag(a, input_str, variables);
        let rb = eval_replace_variables_tag(b, input_str, variables);
        let rt = eval_replace_variables_tag(step_true, input_str, variables);
        let t = match parse_step(rt.as_str()) {
            Ok(v) => v,
            Err(e) => {
                return Err(e);
            },
        };
        let rf = eval_replace_variables_tag(step_false, input_str, variables);
        let f = match parse_step(rf.as_str()) {
            Ok(v) => v,
            Err(e) => {
                return Err(e);
            },
        };
        let c = match evaluate_condition(op.as_str(), ra.as_str(), rb.as_str()) {
            Ok(v) => v,
            Err(e) => {
                return Err(e);
            },
        };
        let step = if c {
            t
        } else {
            f
        };
        Ok(ShortcutResult::GoToStep { output: String::from_str(input_str), step })
    }

    /// Conditional relative jump, with the same template and parse order
    /// as the absolute form.
    pub fn if_else_relative(
        input_str: &str,
        variables: &VariableStore,
        operation: &str,
        a: &str,
        b: &str,
        step_true: &str,
        step_false: &str,
    ) -> (r: Result<ShortcutResult, EngineError>)
        ensures
            match if_else_relative_spec(
                input_str@,
                variables@,
                operation@,
                a@,
                b@,
                step_true@,
                step_false@,
            ) {
                Ok(p) => r matches Ok(sig) && sig@ == SignalModel::GoToStepRelative {
                    output: p.0,
                    step: p.1,
                    sign_is_positive: p.2,
                },
                Err(e) => r matches Err(err) && err@ == e,
            },
    {
        let op = eval_replace_variables_tag(operation, input_str, variables);
        let ra = eval_replace_variables_tag(a, input_str, variables);
        let rb = eval_replace_variables_tag(b, input_str, variables);
        let rt = eval_replace_variables_tag(step_true, input_str, variables);
        let (t, tp) = match parse_step_relative(rt.as_str()) {
            Ok(v) => v,
            Err(e) => {
                return Err(e);
            },
        };
        let rf = eval_replace_variables_tag(step_false, input_str, variables);
        let (f, fp) = match parse_step_relative(rf.as_str()) {
            Ok(v) => v,
            Err(e) => {
                return Err(e);
            },
        };
        let c = match evaluate_condition(op.as_str(), ra.as_str(), rb.as_str()) {
            Ok(v) => v,
            Err(e) => {
                return Err(e);
            },
        };
        if c {
            Ok(
                ShortcutResult::GoToStepRelative {
                    output: String::from_str(input_str),
                    step: t,
                    sign_is_positive: tp,
                },
            )
        } else {
            Ok(
                ShortcutResult::GoToStepRelative {
                    output: String::from_str(input_str),
                    step: f,
                    sign_is_positive: fp,
                },
            )
        }
    }

    /// Increment a variable by a signed amount. The resolved amount must
    /// parse as a signed integer; when the variable, looked up under the
    /// lowercased name, holds a signed integer the sum is stored,
    /// otherwise the amount alone; the store key is the name exactly as
    /// given. The input passes through.
    pub fn increment_variable(
        input_str: &str,
        variables: &mut VariableStore,
        name: &str,
        amount: &str,
    ) -> (r: Result<ShortcutResult, EngineError>)
        ensures
            match increment_variable_spec(input_str@, old(variables)@, name@, amount@) {
                Ok(e2) => r matches Ok(sig) && sig@ == SignalModel::Success(input_str@)
                    && final(variables)@ == e2,
                Err(e) => r matches Err(err) && err@ == e && final(variables)@ == old(variables)@,
            },
            old(variables).wf() ==> final(variables).wf(),
    {
        let resolved_amount = eval_replace_variables_tag(amount, input_str, variables);
        let amt = match parse_i64(resolved_amount.as_str()) {
            Some(v) => v,
            None => {
                return Err(EngineError::InvalidAmount { amount: resolved_amount });
            },
        };
        let lowered = to_lowercase_str(name);
        let base: Option<i64> = match variables.get(lowered.as_str()) {
            Some(existing) => parse_i64(existing.as_str()),
            None => None,
        };
        let new_value: i64 = match base {
            Some(b) => match b.checked_add(amt) {
                Some(v) => v,
                None => {
                    return Err(EngineError::AmountOverflow);
                },
            },
            None => amt,
        };
        variables.set(String::from_str(name), i64_to_string(new_value));
        Ok(ShortcutResult::Success(String::from_str(input_str)))
    }
}

/// Parse a resolved jump target as a non-negative step index.
pub fn parse_step(step: &str) -> (r: Result<usize, EngineError>)
    ensures
        match parse_step_spec(step@) {
            Ok(v) => r matches Ok(x) && x as int == v,
            Err(e) => r matches Err(err) && err@ == e,
        },
{
    match parse_usize(step) {
        Some(v) => Ok(v),
        None => Err(EngineError::InvalidStep { step: String::from_str(step) }),
    }
}

/// Parse a resolved relative jump target into magnitude and direction:
/// the jump is backward exactly when the text holds a `-` anywhere, and
/// the magnitude is the text with every `-` and `+` removed.
pub fn parse_step_relative(step: &str) -> (r: Result<(usize, bool), EngineError>)
    ensures
        match parse_step_relative_spec(step@) {
            Ok(p) => r matches Ok(x) && x.0 as int == p.0 && x.1 == p.1,
            Err(e) => r matches Err(err) && err@ == e,
        },
{
    proof {
        reveal_strlit("-");
        reveal_strlit("+");
        reveal_strlit("");
        assert(""@ =~= Seq::<char>::empty());
    }
    let sign_is_positive = !str_contains(step, "-");
    let no_minus = replace_all(step, "-", "");
    let cleaned = replace_all(no_minus.as_str(), "+", "");
    match parse_usize(cleaned.as_str()) {
        Some(v) => Ok((v, sign_is_positive)),
        None => Err(EngineError::InvalidStep { step: cleaned }),
    }
}

// ---------------------------------------------------------------------------
// Default parameter texts
// ---------------------------------------------------------------------------

/// The default dialog title.
pub fn action_result_str() -> (r: String)
    ensures
        r@ == "Action Result"@,
{
    String::from_str("Action Result")
}

/// The default content template: the whole current input.
pub fn input_tag_str() -> (r: String)
    ensures
        r@ == "{{input}}"@,
{
    String::from_str("{{input}}")
}

/// The default increment amount.
pub fn one_str() -> (r: String)
    ensures
        r@ == "1"@,
{
    String::from_str("1")
}

// ---------------------------------------------------------------------------
// Template resolution, re-exposed beside the instruction set
// ---------------------------------------------------------------------------

/// Resolve a template against the current input and variable store.
pub fn replace_variables_tag(template: &str, input_str: &str, variables: &VariableStore) -> (r:
    String)
    ensures
        r@ == subst_spec(template@, input_str@, variables@),
{
    eval_replace_variables_tag(template, input_str, variables)
}

/// Resolve each template of a list, preserving order and length.
pub fn replace_variables_tag_vec(
    vec_of_str: &Vec<String>,
    input_str: &str,
    variables: &VariableStore,
) -> (r: Vec<String>)
    ensures
        r@.len() == vec_of_str@.len(),
        forall|i: int|
            0 <= i < r@.len() ==> (#[trigger] r@[i])@ == subst_spec(
                vec_of_str@[i]@,
                input_str@,
                variables@,
            ),
{
    eval_replace_variables_tag_vec(vec_of_str, input_str, variables)
}

// ---------------------------------------------------------------------------
// Executing one instruction
// ---------------------------------------------------------------------------

impl Action {
    /// Execute this instruction against the current input and store:
    /// a state-only instruction yields its control-flow signal; an
    /// effectful one yields the request for the driver, its templates
    /// resolved; a fatal error leaves the store unchanged.
    pub fn run(&self, input_str: &str, variables: &mut VariableStore) -> (r: Result<
        ActionOutcome,
        EngineError,
    >)
        ensures
            match run_action_spec(self@, input_str@, old(variables)@) {
                ActionStepModel::Signal(sig, e2) => r matches Ok(ActionOutcome::Signal(s)) && s@
                    == sig && final(variables)@ == e2,
                ActionStepModel::Effect(req, e2) => r matches Ok(ActionOutcome::Effect(q)) && q@
                    == req && final(variables)@ == e2,
                ActionStepModel::Fail(e) => r matches Err(err) && err@ == e && final(variables)@
                    == old(variables)@,
            },
            old(variables).wf() ==> final(variables).wf(),
    {
        match self {
            Action::Debug => {
                let snapshot = variables.snapshot();
                proof {
                    assert(pairs_view(snapshot@) =~= variables@);
                }
                Ok(
                    ActionOutcome::Effect(
                        EffectRequest::Debug {
                            input: String::from_str(input_str),
                            variables: snapshot,
                        },
                    ),
                )
            },
            Action::SetVariable { name, value } => {
                match CoreAction::set_variable(input_str, variables, name.as_str(), value.as_str()) {
                    Ok(sig) => Ok(ActionOutcome::Signal(sig)),
                    Err(e) => Err(e),
                }
            },
            Action::IncrementVariable { name, amount } => {
                match CoreAction::increment_variable(
                    input_str,
                    variables,
                    name.as_str(),
                    amount.as_str(),
                ) {
                    Ok(sig) => Ok(ActionOutcome::Signal(sig)),
                    Err(e) => Err(e),
                }
            },
            Action::DeleteVariable { name } => {
                match CoreAction::delete_variable(input_str, variables, name.as_str()) {
                    Ok(sig) => Ok(ActionOutcome::Signal(sig)),
                    Err(e) => Err(e),
                }
            },
            Action::Sleep { duration_ms } => {
                let resolved = eval_replace_variables_tag(duration_ms.as_str(), input_str, variables);
                match parse_u64(resolved.as_str()) {
                    Some(d) => Ok(
                        ActionOutcome::Effect(EffectRequest::Sleep { duration_ms: d }),
                    ),
                    None => Err(EngineError::InvalidDuration { duration: resolved }),
                }
            },
            Action::EndProgram => {
                match CoreAction::end_program(input_str) {
                    Ok(sig) => Ok(ActionOutcome::Signal(sig)),
                    Err(e) => Err(e),
                }
            },
            Action::GoToStep { step } => {
                match CoreAction::go_to_step(input_str, variables, step.as_str()) {
                    Ok(sig) => Ok(ActionOutcome::Signal(sig)),
                    Err(e) => Err(e),
                }
            },
            Action::GoToStepRelative { step } => {
                match CoreAction::go_to_step_relative(input_str, variables, step.as_str()) {
                    Ok(sig) => Ok(ActionOutcome::Signal(sig)),
                    Err(e) => Err(e),
                }
            },
            Action::IfElse { operation, a, b, step_true, step_false } => {
                match CoreAction::if_else(
                    input_str,
                    variables,
                    operation.as_str(),
                    a.as_str(),
                    b.as_str(),
                    step_true.as_str(),
                    step_false.as_str(),
                ) {
                    Ok(sig) => Ok(ActionOutcome::Signal(sig)),
                    Err(e) => Err(e),
                }
            },
            Action::IfElseRelative { operation, a, b, step_true, step_false } => {
                match CoreAction::if_else_relative(
                    input_str,
                    variables,
                    operation.as_str(),
                    a.as_str(),
                    b.as_str(),
                    step_true.as_str(),
                    step_false.as_str(),
                ) {
                    Ok(sig) => Ok(ActionOutcome::Signal(sig)),
                    Err(e) => Err(e),
                }
            },
            Action::Spawn { command, args } => {
                let resolved_command = eval_replace_variables_tag(
                    command.as_str(),
                    input_str,
                    variables,
                );
                let resolved_args = eval_replace_variables_tag_vec(args, input_str, variables);
                proof {
                    assert(strs_view(resolved_args@) =~= subst_vec_spec(
                        strs_view(args@),
                        input_str@,
                        variables@,
                    ));
                }
                Ok(
                    ActionOutcome::Effect(
                        EffectRequest::Spawn { command: resolved_command, args: resolved_args },
                    ),
                )
            },
            Action::PrintConsole { content } => {
                let resolved = eval_replace_variables_tag(content.as_str(), input_str, variables);
                Ok(ActionOutcome::Effect(EffectRequest::PrintConsole { content: resolved }))
            },
            Action::ShowDialog { title, body } => {
                let resolved_title = eval_replace_variables_tag(title.as_str(), input_str, variables);
                let resolved_body = eval_replace_variables_tag(body.as_str(), input_str, variables);
                Ok(
                    ActionOutcome::Effect(
                        EffectRequest::ShowDialog { title: resolved_title, body: resolved_body },
                    ),
                )
            },
            Action::ReadClipboard => Ok(ActionOutcome::Effect(EffectRequest::ReadClipboard)),
            Action::WriteClipboard { content } => {
                let resolved = eval_replace_variables_tag(content.as_str(), input_str, variables);
                Ok(ActionOutcome::Effect(EffectRequest::WriteClipboard { content: resolved }))
            },
            Action::AskChatGPT { pre_prompt, prompt } => {
                let resolved_pre = eval_replace_variables_tag(
                    pre_prompt.as_str(),
                    input_str,
                    variables,
                );
                let resolved_prompt = eval_replace_variables_tag(prompt.as_str(), input_str, variables);
                Ok(
                    ActionOutcome::Effect(
                        EffectRequest::AskAssistant {
                            pre_prompt: resolved_pre,
                            prompt: resolved_prompt,
                        },
                    ),
                )
            },
        }
    }
}

} // verus!
