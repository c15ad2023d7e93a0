//! The workspace tasks: which task a command line asks for, and the
//! decisions of the full pipeline check (`verify`), which runs the
//! architecture lint, lists the embedded binary's dependencies and runs the
//! end-to-end harness, one after the other.
use vstd::prelude::*;

use crate::text::{chars_of, contains, contains_seq, same_chars};

verus! {

broadcast use vstd::string::group_string_axioms;

/// The task a command line asks for.
#[derive(Debug)]
pub enum Task {
    /// `qemu`: run the embedded binary; with `--capture`, keep its trace.
    Qemu { capture: bool },
    /// `verify`: the full pipeline check.
    Verify,
    /// A task name that is not known.
    Unknown(String),
    /// No task name at all.
    Missing,
}

pub open spec fn qemu_word() -> Seq<char> {
    seq!['q', 'e', 'm', 'u']
}

pub open spec fn verify_word() -> Seq<char> {
    seq!['v', 'e', 'r', 'i', 'f', 'y']
}

pub open spec fn capture_flag() -> Seq<char> {
    seq!['-', '-', 'c', 'a', 'p', 't', 'u', 'r', 'e']
}

pub open spec fn nalgebra_word() -> Seq<char> {
    seq!['n', 'a', 'l', 'g', 'e', 'b', 'r', 'a']
}

/// Whether some argument at or after `from` is `word`.
pub open spec fn has_arg(args: Seq<String>, from: int, word: Seq<char>) -> bool {
    exists|i: int| from <= i < args.len() && #[trigger] args[i]@ == word
}

fn text_is(a: &String, w: &Vec<char>) -> (r: bool)
    ensures
        r == (a@ == w@),
{
    let c = chars_of(a.as_str());
    same_chars(&c, w)
}

/// The task that the arguments (without the program name) ask for: the
/// first argument names it, and `qemu` captures when any later argument is
/// `--capture`.
pub fn parse_task(args: &Vec<String>) -> (t: Task)
    ensures
        args@.len() == 0 ==> t is Missing,
        args@.len() > 0 && args@[0]@ == qemu_word() ==> t == (Task::Qemu {
            capture: has_arg(args@, 1, capture_flag()),
        }),
        args@.len() > 0 && args@[0]@ == verify_word() ==> t is Verify,
        args@.len() > 0 && args@[0]@ != qemu_word() && args@[0]@ != verify_word() ==> (
        t matches Task::Unknown(name) && name@ == args@[0]@),
{
    if args.len() == 0 {
        return Task::Missing;
    }
    let qemu = vec!['q', 'e', 'm', 'u'];
    let verify = vec!['v', 'e', 'r', 'i', 'f', 'y'];
    assert(qemu@ =~= qemu_word());
    assert(verify@ =~= verify_word());
    if text_is(&args[0], &qemu) {
        let flag = vec!['-', '-', 'c', 'a', 'p', 't', 'u', 'r', 'e'];
        assert(flag@ =~= capture_flag());
        let mut capture = false;
        let mut i: usize = 1;
        while i < args.len()
            invariant
                1 <= i <= args@.len(),
                flag@ == capture_flag(),
                capture == exists|j: int| 1 <= j < i && #[trigger] args@[j]@ == capture_flag(),
            decreases args.len() - i,
        {
            if text_is(&args[i], &flag) {
                capture = true;
            }
            i += 1;
        }
        Task::Qemu { capture }
    } else if text_is(&args[0], &verify) {
        Task::Verify
    } else {
        Task::Unknown(args[0].clone())
    }
}

/// The exit code of a finished child process: its own code, or 1 when it
/// has none (it was ended by a signal).
pub fn status_exit_code(code: Option<i32>) -> (r: i32)
    ensures
        r == match code {
            Some(c) => c,
            None => 1,
        },
{
    match code {
        Some(c) => c,
        None => 1,
    }
}

/// The arguments that run the end-to-end harness, with the QEMU trace when
/// it exists. The harness is a subcommand of this program (`end-to-end`),
/// so the arguments are those of this program, not of a `cargo run` of a
/// separate harness package.
pub fn end_to_end_args(with_trace: bool) -> (r: Vec<String>)
    ensures
        r@.len() == if with_trace { 2nat } else { 1nat },
        r@[0]@ == "end-to-end"@,
        with_trace ==> r@[1]@ == "--with-qemu-trace"@,
{
    let mut r: Vec<String> = Vec::new();
    r.push("end-to-end".to_string());
    if with_trace {
        r.push("--with-qemu-trace".to_string());
    }
    r
}

/// How the architecture lint ended.
#[derive(Debug, Clone, Copy, PartialEq, Eq, Structural)]
pub enum BasisRun {
    /// It ran and found no violation.
    Passed,
    /// It ran and reported violations; its exit code, if any.
    Failed(Option<i32>),
    /// It could not be started (not installed).
    NotFound,
}

/// Where the pipeline check stands.
#[derive(Debug, Clone, Copy, PartialEq, Eq, Structural)]
pub enum VerifyStage {
    Start,
    AwaitBasis,
    AwaitDepTree,
    AwaitProbe,
    AwaitEndToEnd { with_trace: bool },
    Finished(i32),
}

/// What the outside world reports back to the pipeline check.
pub enum VerifyEvent {
    Begin,
    Basis(BasisRun),
    /// The dependency listing ended: whether it succeeded, its exit code and
    /// what it printed.
    DepTree { success: bool, code: Option<i32>, output: String },
    /// Whether the QEMU trace file exists.
    Probe(bool),
    /// The exit code of the end-to-end harness, if any.
    EndToEnd(Option<i32>),
}

/// What the pipeline check asks the outside world to do next.
#[derive(Debug, Clone, Copy, PartialEq, Eq, Structural)]
pub enum VerifyAction {
    RunBasis,
    ListDepTree,
    ProbeTrace,
    RunEndToEnd { with_trace: bool },
    Exit(i32),
}

/// What the pipeline check reports on the way.
#[derive(Debug, Clone, Copy, PartialEq, Eq, Structural)]
pub enum Notice {
    BasisOk,
    BasisFailed(Option<i32>),
    BasisMissing,
    DepTreeFailed(Option<i32>),
    NalgebraFound,
    DepTreeOk,
    EndToEndOk { with_trace: bool },
    EndToEndFailed(i32),
    EndToEndSignalled,
}

/// One step of the pipeline check.
#[derive(Debug, Clone, Copy, PartialEq, Eq, Structural)]
pub struct VerifyStep {
    pub next: VerifyStage,
    pub notice: Option<Notice>,
    pub action: VerifyAction,
}

/// What `stage` asks the outside world to do while it waits.
pub open spec fn awaited_action(stage: VerifyStage) -> VerifyAction {
    match stage {
        VerifyStage::Start => VerifyAction::RunBasis,
        VerifyStage::AwaitBasis => VerifyAction::RunBasis,
        VerifyStage::AwaitDepTree => VerifyAction::ListDepTree,
        VerifyStage::AwaitProbe => VerifyAction::ProbeTrace,
        VerifyStage::AwaitEndToEnd { with_trace } => VerifyAction::RunEndToEnd { with_trace },
        VerifyStage::Finished(code) => VerifyAction::Exit(code),
    }
}

pub open spec fn finish(code: i32, notice: Notice) -> VerifyStep {
    VerifyStep {
        next: VerifyStage::Finished(code),
        notice: Some(notice),
        action: VerifyAction::Exit(code),
    }
}

/// The step that `stage` takes on `event`.
pub open spec fn verify_transition(stage: VerifyStage, event: VerifyEvent) -> VerifyStep {
    match (stage, event) {
        (VerifyStage::AwaitBasis, VerifyEvent::Basis(run)) => match run {
            BasisRun::Passed => VerifyStep {
                next: VerifyStage::AwaitDepTree,
                notice: Some(Notice::BasisOk),
                action: VerifyAction::ListDepTree,
            },
            BasisRun::Failed(code) => finish(1, Notice::BasisFailed(code)),
            BasisRun::NotFound => VerifyStep {
                next: VerifyStage::AwaitDepTree,
                notice: Some(Notice::BasisMissing),
                action: VerifyAction::ListDepTree,
            },
        },
        (VerifyStage::AwaitDepTree, VerifyEvent::DepTree { success, code, output }) => {
            if !success {
                finish(1, Notice::DepTreeFailed(code))
            } else if contains_seq(output@, nalgebra_word()) {
                finish(1, Notice::NalgebraFound)
            } else {
                VerifyStep {
                    next: VerifyStage::AwaitProbe,
                    notice: Some(Notice::DepTreeOk),
                    action: VerifyAction::ProbeTrace,
                }
            }
        },
        (VerifyStage::AwaitProbe, VerifyEvent::Probe(exists)) => VerifyStep {
            next: VerifyStage::AwaitEndToEnd { with_trace: exists },
            notice: None,
            action: VerifyAction::RunEndToEnd { with_trace: exists },
        },
        (VerifyStage::AwaitEndToEnd { with_trace }, VerifyEvent::EndToEnd(code)) => match code {
            Some(0) => finish(0, Notice::EndToEndOk { with_trace }),
            Some(c) => finish(1, Notice::EndToEndFailed(c)),
            None => finish(1, Notice::EndToEndSignalled),
        },
        // Any event starts the check.
        (VerifyStage::Start, _) => VerifyStep {
            next: VerifyStage::AwaitBasis,
            notice: None,
            action: VerifyAction::RunBasis,
        },
        // An event that answers nothing the stage waits for is ignored: the
        // stage stays and asks again for what it waits for (a finished check
        // exits again with its code).
        _ => VerifyStep { next: stage, notice: None, action: awaited_action(stage) },
    }
}

/// What `stage` asks the outside world to do while it waits.
fn pending_action(stage: VerifyStage) -> (r: VerifyAction)
    ensures
        r == awaited_action(stage),
{
    match stage {
        VerifyStage::Start => VerifyAction::RunBasis,
        VerifyStage::AwaitBasis => VerifyAction::RunBasis,
        VerifyStage::AwaitDepTree => VerifyAction::ListDepTree,
        VerifyStage::AwaitProbe => VerifyAction::ProbeTrace,
        VerifyStage::AwaitEndToEnd { with_trace } => VerifyAction::RunEndToEnd { with_trace },
        VerifyStage::Finished(code) => VerifyAction::Exit(code),
    }
}

/// The decision of the pipeline check at `stage` on `event`: the next
/// stage, what to report and what to do.
pub fn verify_step(stage: VerifyStage, event: VerifyEvent) -> (r: VerifyStep)
    ensures
        r == verify_transition(stage, event),
{
    match (stage, event) {
        (VerifyStage::AwaitBasis, VerifyEvent::Basis(run)) => match run {
            BasisRun::Passed => VerifyStep {
                next: VerifyStage::AwaitDepTree,
                notice: Some(Notice::BasisOk),
                action: VerifyAction::ListDepTree,
            },
            BasisRun::Failed(code) => VerifyStep {
                next: VerifyStage::Finished(1),
                notice: Some(Notice::BasisFailed(code)),
                action: VerifyAction::Exit(1),
            },
            BasisRun::NotFound => VerifyStep {
                next: VerifyStage::AwaitDepTree,
                notice: Some(Notice::BasisMissing),
                action: VerifyAction::ListDepTree,
            },
        },
        (VerifyStage::AwaitDepTree, VerifyEvent::DepTree { success, code, output }) => {
            let word = vec!['n', 'a', 'l', 'g', 'e', 'b', 'r', 'a'];
            assert(word@ =~= nalgebra_word());
            if !success {
                VerifyStep {
                    next: VerifyStage::Finished(1),
                    notice: Some(Notice::DepTreeFailed(code)),
                    action: VerifyAction::Exit(1),
                }
            } else if contains(&chars_of(output.as_str()), &word) {
                VerifyStep {
                    next: VerifyStage::Finished(1),
                    notice: Some(Notice::NalgebraFound),
                    action: VerifyAction::Exit(1),
                }
            } else {
                VerifyStep {
                    next: VerifyStage::AwaitProbe,
                    notice: Some(Notice::DepTreeOk),
                    action: VerifyAction::ProbeTrace,
                }
            }
        },
        (VerifyStage::AwaitProbe, VerifyEvent::Probe(exists)) => VerifyStep {
            next: VerifyStage::AwaitEndToEnd { with_trace: exists },
            notice: None,
            action: VerifyAction::RunEndToEnd { with_trace: exists },
        },
        (VerifyStage::AwaitEndToEnd { with_trace }, VerifyEvent::EndToEnd(code)) => match code {
            Some(0) => VerifyStep {
                next: VerifyStage::Finished(0),
                notice: Some(Notice::EndToEndOk { with_trace }),
                action: VerifyAction::Exit(0),
            },
            Some(c) => VerifyStep {
                next: VerifyStage::Finished(1),
                notice: Some(Notice::EndToEndFailed(c)),
                action: VerifyAction::Exit(1),
            },
            None => VerifyStep {
                next: VerifyStage::Finished(1),
                notice: Some(Notice::EndToEndSignalled),
                action: VerifyAction::Exit(1),
            },
        },
        (VerifyStage::Start, _) => VerifyStep {
            next: VerifyStage::AwaitBasis,
            notice: None,
            action: VerifyAction::RunBasis,
        },
        _ => VerifyStep { next: stage, notice: None, action: pending_action(stage) },
    }
}


/// Where the pipeline check stands after `events`, starting at `stage`.
pub open spec fn drive(stage: VerifyStage, events: Seq<VerifyEvent>) -> VerifyStage
    decreases events.len(),
{
    if events.len() == 0 {
        stage
    } else {
        drive(verify_transition(stage, events[0]).next, events.drop_first())
    }
}

/// The pipeline check passes (exit code 0) exactly when the architecture
/// lint did not report violations (a missing lint only warns), the
/// dependency listing succeeded without naming nalgebra, and the end-to-end
/// harness exited with 0; otherwise it ends with exit code 1.
pub proof fn lemma_verify_passes_iff(
    basis: BasisRun,
    success: bool,
    code: Option<i32>,
    output: String,
    trace: bool,
    harness: Option<i32>,
)
    ensures
        drive(
            VerifyStage::Start,
            seq![
                VerifyEvent::Begin,
                VerifyEvent::Basis(basis),
                VerifyEvent::DepTree { success, code, output },
                VerifyEvent::Probe(trace),
                VerifyEvent::EndToEnd(harness),
            ],
        ) == if !(basis is Failed) && success && !contains_seq(output@, nalgebra_word())
            && harness == Some(0i32) {
            VerifyStage::Finished(0)
        } else {
            VerifyStage::Finished(1)
        },
{
    let e = seq![
        VerifyEvent::Begin,
        VerifyEvent::Basis(basis),
        VerifyEvent::DepTree { success, code, output },
        VerifyEvent::Probe(trace),
        VerifyEvent::EndToEnd(harness),
    ];
    let e1 = e.drop_first();
    let e2 = e1.drop_first();
    let e3 = e2.drop_first();
    let e4 = e3.drop_first();
    let e5 = e4.drop_first();
    assert(e5.len() == 0);
    reveal_with_fuel(drive, 6);
}

/// Every step asks for exactly what its next stage waits for: the lint, the
/// dependency listing, the trace probe, the harness (with the trace as the
/// stage records), or, once finished, the exit with the finished code.
pub proof fn lemma_action_is_awaited(stage: VerifyStage, event: VerifyEvent)
    ensures
        verify_transition(stage, event).action == awaited_action(
            verify_transition(stage, event).next,
        ),
{
}

/// A step that finishes the check exits with the code it finished with:
/// `Exit(0)` only when the check passed, `Exit(1)` when it failed.
pub proof fn lemma_finish_exits_with_its_code(stage: VerifyStage, event: VerifyEvent)
    ensures
        verify_transition(stage, event).next matches VerifyStage::Finished(c)
            ==> verify_transition(stage, event).action == VerifyAction::Exit(c),
        verify_transition(stage, event).action matches VerifyAction::Exit(c)
            ==> verify_transition(stage, event).next == VerifyStage::Finished(c),
{
}

/// A missing lint only warns: the check goes on exactly as after a lint
/// that passed (same next stage, same action), with a warning in place of
/// the pass notice.
pub proof fn lemma_missing_lint_only_warns()
    ensures
        verify_transition(VerifyStage::AwaitBasis, VerifyEvent::Basis(BasisRun::NotFound)).next
            == verify_transition(VerifyStage::AwaitBasis, VerifyEvent::Basis(BasisRun::Passed)).next,
        verify_transition(VerifyStage::AwaitBasis, VerifyEvent::Basis(BasisRun::NotFound)).action
            == verify_transition(
            VerifyStage::AwaitBasis,
            VerifyEvent::Basis(BasisRun::Passed),
        ).action,
        verify_transition(VerifyStage::AwaitBasis, VerifyEvent::Basis(BasisRun::NotFound)).action
            == VerifyAction::ListDepTree,
        verify_transition(VerifyStage::AwaitBasis, VerifyEvent::Basis(BasisRun::NotFound)).notice
            == Some(Notice::BasisMissing),
{
}

/// The harness is run with the QEMU trace exactly when the probe found it.
pub proof fn lemma_trace_only_when_found(found: bool)
    ensures
        verify_transition(VerifyStage::AwaitProbe, VerifyEvent::Probe(found)).action
            == (VerifyAction::RunEndToEnd { with_trace: found }),
{
}

/// A harness run that did not exit with 0 fails the check with exit code 1,
/// whatever the trace.
pub proof fn lemma_harness_failure_fails(with_trace: bool, code: Option<i32>)
    requires
        code != Some(0i32),
    ensures
        verify_transition(
            VerifyStage::AwaitEndToEnd { with_trace },
            VerifyEvent::EndToEnd(code),
        ).action == VerifyAction::Exit(1),
{
}

} // verus!
