use shortcut_hero::actions::{Action, EffectRequest};
use shortcut_hero::engine::{apply_response, initial_state, run, EffectResponse, RunOutcome};
use shortcut_hero::errors::EngineError;

/// Drive a program to completion, answering print requests with their
/// content (so the printed text becomes the next input) and collecting
/// everything printed.
fn run_collecting_prints(program: &Vec<Action>, initial: &str) -> (String, Vec<String>) {
    let mut state = initial_state(String::from(initial));
    let mut prints: Vec<String> = Vec::new();
    loop {
        match run(program, state, 10_000) {
            RunOutcome::Halted(out) => return (out, prints),
            RunOutcome::Pending { state: st, request } => {
                let response = match request {
                    EffectRequest::PrintConsole { content } => {
                        prints.push(content.clone());
                        EffectResponse::Text(content)
                    }
                    _ => EffectResponse::Unit,
                };
                state = apply_response(st, response).expect("collaborator failed");
            }
            RunOutcome::Failed { step, error } => {
                panic!("run failed at step {}: {:?}", step, error)
            }
            RunOutcome::OutOfSteps { .. } => panic!("step budget exhausted"),
        }
    }
}

#[test]
fn empty_program_halts_with_initial_input() {
    let program: Vec<Action> = Vec::new();
    let out = run(&program, initial_state(String::from("seed")), 10);
    assert!(matches!(out, RunOutcome::Halted(s) if s == "seed"));
}

#[test]
fn straightline_program_takes_one_step_per_instruction() {
    let program = vec![
        Action::SetVariable {
            name: String::from("a"),
            value: String::from("1"),
        },
        Action::SetVariable {
            name: String::from("b"),
            value: String::from("2"),
        },
        Action::DeleteVariable {
            name: String::from("a"),
        },
    ];
    // a budget of exactly one step per instruction suffices
    let out = run(&program, initial_state(String::new()), 3);
    assert!(matches!(out, RunOutcome::Halted(_)));
    // one step fewer and the run is cut short
    let out = run(&program, initial_state(String::new()), 2);
    assert!(matches!(out, RunOutcome::OutOfSteps { .. }));
}

#[test]
fn out_of_steps_state_can_resume() {
    let program = vec![
        Action::SetVariable {
            name: String::from("a"),
            value: String::from("1"),
        },
        Action::SetVariable {
            name: String::from("input"),
            value: String::from("finished"),
        },
    ];
    let first = run(&program, initial_state(String::new()), 1);
    match first {
        RunOutcome::OutOfSteps { state } => {
            let second = run(&program, state, 10);
            assert!(matches!(second, RunOutcome::Halted(s) if s == "finished"));
        }
        other => panic!("expected OutOfSteps, got {:?}", other),
    }
}

#[test]
fn jump_absolute_valid_target_resumes_there() {
    // the jump lands on step 2, so step 1 must never run
    let program = vec![
        Action::GoToStep {
            step: String::from("2"),
        },
        Action::SetVariable {
            name: String::from("input"),
            value: String::from("skipped"),
        },
        Action::EndProgram,
    ];
    let out = run(&program, initial_state(String::from("kept")), 10);
    assert!(matches!(out, RunOutcome::Halted(s) if s == "kept"));
}

#[test]
fn jump_absolute_to_program_length_is_bounds_error() {
    let program = vec![Action::GoToStep {
        step: String::from("1"),
    }];
    let out = run(&program, initial_state(String::new()), 10);
    match out {
        RunOutcome::Failed { step, error } => {
            assert_eq!(step, 0);
            assert!(matches!(
                error,
                EngineError::JumpOutOfBounds {
                    from: 0,
                    target: 1,
                    len: 1
                }
            ));
        }
        other => panic!("expected Failed, got {:?}", other),
    }
}

#[test]
fn jump_absolute_beyond_program_length_is_bounds_error() {
    let program = vec![
        Action::GoToStep {
            step: String::from("7"),
        },
        Action::EndProgram,
    ];
    let out = run(&program, initial_state(String::new()), 10);
    assert!(matches!(
        out,
        RunOutcome::Failed {
            step: 0,
            error: EngineError::JumpOutOfBounds {
                from: 0,
                target: 7,
                len: 2
            }
        }
    ));
}

#[test]
fn jump_relative_forward_in_bounds_succeeds() {
    // from index 0 forward by 2 lands on index 2 since 0 + 2 < 3
    let program = vec![
        Action::GoToStepRelative {
            step: String::from("+2"),
        },
        Action::SetVariable {
            name: String::from("input"),
            value: String::from("skipped"),
        },
        Action::EndProgram,
    ];
    let out = run(&program, initial_state(String::from("kept")), 10);
    assert!(matches!(out, RunOutcome::Halted(s) if s == "kept"));
}

#[test]
fn jump_relative_forward_out_of_bounds_fails() {
    // from index 0 forward by 1 needs 0 + 1 < 1, which fails
    let program = vec![Action::GoToStepRelative {
        step: String::from("+1"),
    }];
    let out = run(&program, initial_state(String::new()), 10);
    assert!(matches!(
        out,
        RunOutcome::Failed {
            step: 0,
            error: EngineError::RelativeJumpOutOfBounds {
                from: 0,
                magnitude: 1,
                forward: true,
                len: 1
            }
        }
    ));
}

#[test]
fn jump_relative_backward_within_index_succeeds() {
    // 0 jumps to 2; from index 2 backward by 1 lands on 1 since 1 <= 2
    let program = vec![
        Action::GoToStep {
            step: String::from("2"),
        },
        Action::EndProgram,
        Action::GoToStepRelative {
            step: String::from("-1"),
        },
    ];
    let out = run(&program, initial_state(String::from("done")), 10);
    assert!(matches!(out, RunOutcome::Halted(s) if s == "done"));
}

#[test]
fn jump_relative_backward_past_start_fails() {
    // from index 0 backward by 1 needs 1 <= 0, which fails
    let program = vec![
        Action::GoToStepRelative {
            step: String::from("-1"),
        },
        Action::EndProgram,
    ];
    let out = run(&program, initial_state(String::new()), 10);
    assert!(matches!(
        out,
        RunOutcome::Failed {
            step: 0,
            error: EngineError::RelativeJumpOutOfBounds {
                from: 0,
                magnitude: 1,
                forward: false,
                len: 2
            }
        }
    ));
}

#[test]
fn end_program_halts_with_current_input() {
    let program = vec![
        Action::SetVariable {
            name: String::from("input"),
            value: String::from("result"),
        },
        Action::EndProgram,
        Action::SetVariable {
            name: String::from("input"),
            value: String::from("unreachable"),
        },
    ];
    let out = run(&program, initial_state(String::new()), 10);
    assert!(matches!(out, RunOutcome::Halted(s) if s == "result"));
}

#[test]
fn counting_loop_prints_and_halts() {
    let program = vec![
        Action::SetVariable {
            name: String::from("i"),
            value: String::from("0"),
        },
        Action::PrintConsole {
            content: String::from("{{i}}"),
        },
        Action::IncrementVariable {
            name: String::from("i"),
            amount: String::from("1"),
        },
        Action::IfElseRelative {
            operation: String::from("<"),
            a: String::from("{{i}}"),
            b: String::from("3"),
            step_true: String::from("-2"),
            step_false: String::from("+1"),
        },
        Action::PrintConsole {
            content: String::from("done"),
        },
    ];
    let (out, prints) = run_collecting_prints(&program, "");
    assert_eq!(prints, vec!["0", "1", "2", "done"]);
    assert_eq!(out, "done");
}

#[test]
fn failed_collaborator_aborts_resume() {
    let program = vec![Action::ReadClipboard, Action::EndProgram];
    let out = run(&program, initial_state(String::new()), 10);
    match out {
        RunOutcome::Pending { state, request } => {
            assert!(matches!(request, EffectRequest::ReadClipboard));
            let err = apply_response(state, EffectResponse::Failure(String::from("no clipboard")));
            assert!(matches!(
                err,
                Err(EngineError::CollaboratorFailed { message }) if message == "no clipboard"
            ));
        }
        other => panic!("expected Pending, got {:?}", other),
    }
}

#[test]
fn clipboard_text_becomes_next_input() {
    let program = vec![Action::ReadClipboard, Action::EndProgram];
    let out = run(&program, initial_state(String::new()), 10);
    match out {
        RunOutcome::Pending { state, request } => {
            assert!(matches!(request, EffectRequest::ReadClipboard));
            let state = apply_response(state, EffectResponse::Text(String::from("clip"))).unwrap();
            let out = run(&program, state, 10);
            assert!(matches!(out, RunOutcome::Halted(s) if s == "clip"));
        }
        other => panic!("expected Pending, got {:?}", other),
    }
}

#[test]
fn effect_requests_carry_resolved_templates() {
    let program = vec![
        Action::SetVariable {
            name: String::from("City"),
            value: String::from("Lyon"),
        },
        Action::ShowDialog {
            title: String::from("Hello {{city}}"),
            body: String::from("{{input}}!"),
        },
    ];
    let out = run(&program, initial_state(String::from("hi")), 10);
    match out {
        RunOutcome::Pending { request, .. } => match request {
            EffectRequest::ShowDialog { title, body } => {
                assert_eq!(title, "Hello Lyon");
                assert_eq!(body, "hi!");
            }
            other => panic!("expected ShowDialog, got {:?}", other),
        },
        other => panic!("expected Pending, got {:?}", other),
    }
}

#[test]
fn spawn_request_resolves_command_and_arguments() {
    let program = vec![Action::Spawn {
        command: String::from("echo"),
        args: vec![String::from("{{input}}"), String::from("literal")],
    }];
    let out = run(&program, initial_state(String::from("hi")), 10);
    match out {
        RunOutcome::Pending { request, .. } => match request {
            EffectRequest::Spawn { command, args } => {
                assert_eq!(command, "echo");
                assert_eq!(args, vec!["hi", "literal"]);
            }
            other => panic!("expected Spawn, got {:?}", other),
        },
        other => panic!("expected Pending, got {:?}", other),
    }
}

#[test]
fn sleep_duration_is_parsed_after_substitution() {
    let program = vec![
        Action::SetVariable {
            name: String::from("ms"),
            value: String::from("250"),
        },
        Action::Sleep {
            duration_ms: String::from("{{ms}}"),
        },
    ];
    let out = run(&program, initial_state(String::new()), 10);
    match out {
        RunOutcome::Pending { request, .. } => {
            assert!(matches!(request, EffectRequest::Sleep { duration_ms: 250 }));
        }
        other => panic!("expected Pending, got {:?}", other),
    }
}

#[test]
fn sleep_with_bad_duration_fails() {
    let program = vec![Action::Sleep {
        duration_ms: String::from("soon"),
    }];
    let out = run(&program, initial_state(String::new()), 10);
    assert!(matches!(
        out,
        RunOutcome::Failed {
            step: 0,
            error: EngineError::InvalidDuration { duration }
        } if duration == "soon"
    ));
}
