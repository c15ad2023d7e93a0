use moonshot::tasks::{
    end_to_end_args, parse_task, status_exit_code, verify_step, BasisRun, Notice, Task,
    VerifyAction, VerifyEvent, VerifyStage,
};

fn args(a: &[&str]) -> Vec<String> {
    a.iter().map(|s| s.to_string()).collect()
}

#[test]
fn picks_the_task() {
    assert!(matches!(parse_task(&args(&[])), Task::Missing));
    assert!(matches!(parse_task(&args(&["qemu"])), Task::Qemu { capture: false }));
    assert!(matches!(
        parse_task(&args(&["qemu", "--release", "--capture"])),
        Task::Qemu { capture: true }
    ));
    assert!(matches!(parse_task(&args(&["verify", "--capture"])), Task::Verify));
    match parse_task(&args(&["bench"])) {
        Task::Unknown(name) => assert_eq!(name, "bench"),
        _ => panic!("expected an unknown task"),
    }
    // The task name itself is not a capture flag.
    assert!(matches!(parse_task(&args(&["--capture"])), Task::Unknown(_)));
}

#[test]
fn exit_code_of_a_child() {
    assert_eq!(status_exit_code(Some(0)), 0);
    assert_eq!(status_exit_code(Some(3)), 3);
    assert_eq!(status_exit_code(None), 1);
}

#[test]
fn end_to_end_arguments() {
    assert_eq!(end_to_end_args(false), args(&["end-to-end"]));
    assert_eq!(end_to_end_args(true), args(&["end-to-end", "--with-qemu-trace"]));
}

fn drive(events: Vec<VerifyEvent>) -> (Vec<Notice>, VerifyStage) {
    let mut stage = VerifyStage::Start;
    let mut notices = Vec::new();
    for e in events {
        let step = verify_step(stage, e);
        if let Some(n) = step.notice {
            notices.push(n);
        }
        stage = step.next;
    }
    (notices, stage)
}

fn tree(success: bool, output: &str) -> VerifyEvent {
    VerifyEvent::DepTree { success, code: Some(if success { 0 } else { 101 }), output: output.to_string() }
}

#[test]
fn verify_passes_when_every_step_passes() {
    let (notices, stage) = drive(vec![
        VerifyEvent::Begin,
        VerifyEvent::Basis(BasisRun::Passed),
        tree(true, "embedded v0.1.0\n└── codegen-demo v0.1.0\n"),
        VerifyEvent::Probe(true),
        VerifyEvent::EndToEnd(Some(0)),
    ]);
    assert_eq!(stage, VerifyStage::Finished(0));
    assert_eq!(
        notices,
        vec![Notice::BasisOk, Notice::DepTreeOk, Notice::EndToEndOk { with_trace: true }]
    );
}

#[test]
fn a_missing_lint_only_warns() {
    let (notices, stage) = drive(vec![
        VerifyEvent::Begin,
        VerifyEvent::Basis(BasisRun::NotFound),
        tree(true, ""),
        VerifyEvent::Probe(false),
        VerifyEvent::EndToEnd(Some(0)),
    ]);
    assert_eq!(stage, VerifyStage::Finished(0));
    assert_eq!(notices[0], Notice::BasisMissing);
    assert_eq!(notices[2], Notice::EndToEndOk { with_trace: false });
}

#[test]
fn verify_stops_at_the_first_failure() {
    let (notices, stage) = drive(vec![
        VerifyEvent::Begin,
        VerifyEvent::Basis(BasisRun::Failed(Some(1))),
        tree(true, ""),
        VerifyEvent::Probe(true),
        VerifyEvent::EndToEnd(Some(0)),
    ]);
    assert_eq!(stage, VerifyStage::Finished(1));
    assert_eq!(notices, vec![Notice::BasisFailed(Some(1))]);

    let (notices, stage) = drive(vec![
        VerifyEvent::Begin,
        VerifyEvent::Basis(BasisRun::Passed),
        tree(true, "embedded\n└── nalgebra v0.33.3\n"),
        VerifyEvent::Probe(true),
    ]);
    assert_eq!(stage, VerifyStage::Finished(1));
    assert_eq!(notices, vec![Notice::BasisOk, Notice::NalgebraFound]);

    let (notices, _) = drive(vec![VerifyEvent::Begin, VerifyEvent::Basis(BasisRun::Passed), tree(false, "")]);
    assert_eq!(notices, vec![Notice::BasisOk, Notice::DepTreeFailed(Some(101))]);

    let (notices, stage) = drive(vec![
        VerifyEvent::Begin,
        VerifyEvent::Basis(BasisRun::Passed),
        tree(true, ""),
        VerifyEvent::Probe(false),
        VerifyEvent::EndToEnd(Some(2)),
    ]);
    assert_eq!(stage, VerifyStage::Finished(1));
    assert_eq!(notices[2], Notice::EndToEndFailed(2));

    let (notices, _) = drive(vec![
        VerifyEvent::Begin,
        VerifyEvent::Basis(BasisRun::Passed),
        tree(true, ""),
        VerifyEvent::Probe(false),
        VerifyEvent::EndToEnd(None),
    ]);
    assert_eq!(notices[2], Notice::EndToEndSignalled);
}

#[test]
fn actions_follow_the_pipeline_order() {
    let s = verify_step(VerifyStage::Start, VerifyEvent::Begin);
    assert_eq!(s.action, VerifyAction::RunBasis);
    let s = verify_step(s.next, VerifyEvent::Basis(BasisRun::Passed));
    assert_eq!(s.action, VerifyAction::ListDepTree);
    let s = verify_step(s.next, tree(true, ""));
    assert_eq!(s.action, VerifyAction::ProbeTrace);
    let s = verify_step(s.next, VerifyEvent::Probe(true));
    assert_eq!(s.action, VerifyAction::RunEndToEnd { with_trace: true });
    let s = verify_step(s.next, VerifyEvent::EndToEnd(Some(0)));
    assert_eq!(s.action, VerifyAction::Exit(0));
    // A finished check exits again on any further event.
    let again = verify_step(s.next, VerifyEvent::Begin);
    assert_eq!((again.next, again.notice, again.action), (VerifyStage::Finished(0), None, VerifyAction::Exit(0)));
}

#[test]
fn an_event_out_of_turn_is_ignored() {
    let s = verify_step(VerifyStage::AwaitDepTree, VerifyEvent::Probe(true));
    assert_eq!(s.next, VerifyStage::AwaitDepTree);
    assert_eq!(s.notice, None);
    assert_eq!(s.action, VerifyAction::ListDepTree);
    let s = verify_step(VerifyStage::Start, VerifyEvent::Probe(false));
    assert_eq!(s.next, VerifyStage::AwaitBasis);
    assert_eq!(s.action, VerifyAction::RunBasis);
}
