//! What the host answers, and what an answer means for the operation that asked for it.

use crate::api::{Exchange, ExchangeView};
use crate::error::{Failure, FirecrackerError};
use crate::host::{Action, ActionView};
use crate::size::{checked_dir_size_mb, listing_fits, DirEntry};
use crate::subnet::{has_network, VmSubnet};
use crate::text::{
    cat, cat3, lossy, lossy_text, parse_failure_message, parse_failure_text, parse_unsigned,
    parse_unsigned_text, spaced, spaced_text, texts, trim_text, trimmed,
};
use vstd::prelude::*;
use vstd::string::*;
use vstd::utf8::*;

verus! {

/// How long Firecracker may take to open its API socket, in nanoseconds.
pub const API_READY_TIMEOUT_NANOS: u64 = 5_000_000_000;

/// How long the sandbox supervisor may take to get ready after it was first asked for, in
/// nanoseconds.
pub const SUPERVISOR_READY_TIMEOUT_NANOS: u64 = 60_000_000_000;

// ── Events ───────────────────────────────────────────────────────────────────

/// How a program ended.
#[derive(Debug)]
pub enum Outcome {
    /// It could not be started, for the given reason.
    NotStarted(String),
    /// It ended. `status` tells how.
    Exited { success: bool, status: String },
}

/// The content of an [`Outcome`].
pub enum OutcomeView {
    NotStarted(Seq<char>),
    Exited { success: bool, status: Seq<char> },
}

impl View for Outcome {
    type V = OutcomeView;

    open spec fn view(&self) -> OutcomeView {
        match self {
            Outcome::NotStarted(reason) => OutcomeView::NotStarted(reason@),
            Outcome::Exited { success, status } => OutcomeView::Exited {
                success: *success,
                status: status@,
            },
        }
    }
}

/// How a program ended, with what it wrote.
#[derive(Debug)]
pub enum Output {
    /// It could not be started, for the given reason.
    NotStarted(String),
    /// It ended.
    Exited { success: bool, stdout: Vec<u8>, stderr: Vec<u8> },
}

/// The content of an [`Output`].
pub enum OutputView {
    NotStarted(Seq<char>),
    Exited { success: bool, stdout: Seq<u8>, stderr: Seq<u8> },
}

impl View for Output {
    type V = OutputView;

    open spec fn view(&self) -> OutputView {
        match self {
            Output::NotStarted(reason) => OutputView::NotStarted(reason@),
            Output::Exited { success, stdout, stderr } => OutputView::Exited {
                success: *success,
                stdout: stdout@,
                stderr: stderr@,
            },
        }
    }
}

/// What the driver reports of an action.
#[derive(Debug)]
pub enum Event {
    Ran(Outcome),
    Captured(Output),
    /// Done, or not done for the given reason.
    Finished(Option<String>),
    Presence(bool),
    /// The time, in nanoseconds from a fixed moment.
    Clock(u64),
    /// Whether what was looked for is there or ready, and the time of the look.
    Polled { present: bool, now: u64 },
    Exchanged(Exchange),
    Subnet(VmSubnet),
    Listing(Vec<DirEntry>),
}

/// The content of an [`Event`].
pub enum EventView {
    Ran(OutcomeView),
    Captured(OutputView),
    Finished(Option<Seq<char>>),
    Presence(bool),
    Clock(u64),
    Polled { present: bool, now: u64 },
    Exchanged(ExchangeView),
    Subnet(VmSubnet),
    Listing(Seq<DirEntry>),
}

impl View for Event {
    type V = EventView;

    open spec fn view(&self) -> EventView {
        match self {
            Event::Ran(outcome) => EventView::Ran(outcome@),
            Event::Captured(output) => EventView::Captured(output@),
            Event::Finished(None) => EventView::Finished(None),
            Event::Finished(Some(reason)) => EventView::Finished(Some(reason@)),
            Event::Presence(present) => EventView::Presence(*present),
            Event::Clock(now) => EventView::Clock(*now),
            Event::Polled { present, now } => EventView::Polled { present: *present, now: *now },
            Event::Exchanged(exchange) => EventView::Exchanged(exchange@),
            Event::Subnet(subnet) => EventView::Subnet(*subnet),
            Event::Listing(entries) => EventView::Listing(entries@),
        }
    }
}

/// Whether an event is an answer to an action: of its kind, a subnet with a network address, a
/// listing that can be summed.
pub open spec fn answers(action: ActionView, event: EventView) -> bool {
    match action {
        ActionView::Run(_) => event is Ran,
        ActionView::Capture(_) => event is Captured,
        ActionView::Spawn(_) => event is Finished,
        ActionView::CreateDirAll(_) => event is Finished,
        ActionView::RemoveFile(_) => event is Finished,
        ActionView::RemoveDirAll(_) => event is Finished,
        ActionView::CheckExists(_) => event is Presence,
        ActionView::ReadClock => event is Clock,
        ActionView::Poll(_) => event is Polled,
        ActionView::PollSupervisor(_) => event is Polled,
        ActionView::Send(_) => event is Exchanged,
        ActionView::Sleep(_) => event is Finished,
        ActionView::Kill => event is Finished,
        ActionView::StartKill => event is Finished,
        ActionView::AllocateSubnet => match event {
            EventView::Subnet(subnet) => has_network(subnet),
            _ => false,
        },
        ActionView::ListDir(_) => match event {
            EventView::Listing(entries) => listing_fits(entries),
            _ => false,
        },
    }
}

impl<'a> Action<'a> {
    /// Whether `event` is an answer to this action.
    pub fn answered_by(&self, event: &Event) -> (fits: bool)
        ensures
            fits == answers(self@, event@),
    {
        match (self, event) {
            (Action::Run(_), Event::Ran(_)) => true,
            (Action::Capture(_), Event::Captured(_)) => true,
            (Action::Spawn(_), Event::Finished(_)) => true,
            (Action::CreateDirAll(_), Event::Finished(_)) => true,
            (Action::RemoveFile(_), Event::Finished(_)) => true,
            (Action::RemoveDirAll(_), Event::Finished(_)) => true,
            (Action::CheckExists(_), Event::Presence(_)) => true,
            (Action::ReadClock, Event::Clock(_)) => true,
            (Action::Poll(_), Event::Polled { .. }) => true,
            (Action::PollSupervisor(_), Event::Polled { .. }) => true,
            (Action::Send(_), Event::Exchanged(_)) => true,
            (Action::Sleep(_), Event::Finished(_)) => true,
            (Action::Kill, Event::Finished(_)) => true,
            (Action::StartKill, Event::Finished(_)) => true,
            (Action::AllocateSubnet, Event::Subnet(subnet)) => subnet.has_network_ip(),
            (Action::ListDir(_), Event::Listing(entries)) => checked_dir_size_mb(entries).is_some(),
            _ => false,
        }
    }
}

// ── Programs that end ────────────────────────────────────────────────────────

/// What is wrong with a run of `ip` by itself, if anything.
pub open spec fn ip_failure(args: Seq<Seq<char>>, outcome: OutcomeView) -> Option<Failure> {
    match outcome {
        OutcomeView::NotStarted(reason) => Some(Failure::Tap("ip command failed: "@ + reason)),
        OutcomeView::Exited { success, status } => if success {
            None
        } else {
            Some(Failure::Tap("ip "@ + spaced(args) + " exited with "@ + status))
        },
    }
}

/// Judges a run of `ip` with the given arguments.
pub fn run_ip(args: &Vec<String>, outcome: &Outcome) -> (result: Result<(), FirecrackerError>)
    ensures
        match result {
            Ok(_) => ip_failure(texts(args@), outcome@) is None,
            Err(e) => ip_failure(texts(args@), outcome@) == Some(e@),
        },
{
    match outcome {
        Outcome::NotStarted(reason) => Err(
            FirecrackerError::Tap(cat("ip command failed: ", reason.as_str())),
        ),
        Outcome::Exited { success, status } => if *success {
            Ok(())
        } else {
            Err(
                FirecrackerError::Tap(
                    cat3("ip ", spaced_text(args).as_str(), " exited with ").concat(status.as_str()),
                ),
            )
        },
    }
}

/// What is wrong with a run of `iptables`, if anything.
pub open spec fn iptables_failure(args: Seq<Seq<char>>, outcome: OutcomeView) -> Option<Failure> {
    match outcome {
        OutcomeView::NotStarted(reason) => Some(Failure::Routing(reason)),
        OutcomeView::Exited { success, status } => if success {
            None
        } else {
            Some(Failure::Routing("iptables "@ + spaced(args) + " exited with "@ + status))
        },
    }
}

/// Judges a run of `iptables` with the given arguments.
pub fn run_iptables(args: &Vec<String>, outcome: &Outcome) -> (result: Result<
    (),
    FirecrackerError,
>)
    ensures
        match result {
            Ok(_) => iptables_failure(texts(args@), outcome@) is None,
            Err(e) => iptables_failure(texts(args@), outcome@) == Some(e@),
        },
{
    match outcome {
        Outcome::NotStarted(reason) => Err(FirecrackerError::Routing(reason.clone())),
        Outcome::Exited { success, status } => if *success {
            Ok(())
        } else {
            Err(
                FirecrackerError::Routing(
                    cat3("iptables ", spaced_text(args).as_str(), " exited with ").concat(
                        status.as_str(),
                    ),
                ),
            )
        },
    }
}

/// What is wrong with a run of `sysctl`, if anything.
pub open spec fn sysctl_failure(key: Seq<char>, value: Seq<char>, outcome: OutcomeView) -> Option<
    Failure,
> {
    match outcome {
        OutcomeView::NotStarted(reason) => Some(Failure::Routing(reason)),
        OutcomeView::Exited { success, status } => if success {
            None
        } else {
            Some(Failure::Routing("sysctl "@ + key + "="@ + value + " failed"@))
        },
    }
}

/// Judges a run of `sysctl` that sets `key` to `value`.
pub fn run_sysctl(key: &str, value: &str, outcome: &Outcome) -> (result: Result<
    (),
    FirecrackerError,
>)
    ensures
        match result {
            Ok(_) => sysctl_failure(key@, value@, outcome@) is None,
            Err(e) => sysctl_failure(key@, value@, outcome@) == Some(e@),
        },
{
    match outcome {
        Outcome::NotStarted(reason) => Err(FirecrackerError::Routing(reason.clone())),
        Outcome::Exited { success, status: _ } => if *success {
            Ok(())
        } else {
            Err(
                FirecrackerError::Routing(
                    cat3("sysctl ", key, "=").concat(value).concat(" failed"),
                ),
            )
        },
    }
}

/// What is wrong with a run of `program`, if anything.
pub open spec fn cmd_failure(program: Seq<char>, outcome: OutcomeView) -> Option<Seq<char>> {
    match outcome {
        OutcomeView::NotStarted(reason) => Some(reason),
        OutcomeView::Exited { success, status } => if success {
            None
        } else {
            Some(program + " exited with "@ + status)
        },
    }
}

/// Judges a run of `program`.
pub fn run_cmd(program: &str, outcome: &Outcome) -> (result: Result<(), String>)
    ensures
        match result {
            Ok(_) => cmd_failure(program@, outcome@) is None,
            Err(e) => cmd_failure(program@, outcome@) == Some(e@),
        },
{
    match outcome {
        Outcome::NotStarted(reason) => Err(reason.clone()),
        Outcome::Exited { success, status } => if *success {
            Ok(())
        } else {
            Err(cat3(program, " exited with ", status.as_str()))
        },
    }
}

// ── Programs that tell something ─────────────────────────────────────────────

/// The loop device that `losetup` printed, or what is wrong.
pub open spec fn losetup_result(output: OutputView) -> Result<Seq<char>, Failure> {
    match output {
        OutputView::NotStarted(reason) => Err(Failure::Overlay("losetup failed: "@ + reason)),
        OutputView::Exited { success, stdout, stderr } => if success {
            Ok(trimmed(lossy(stdout)))
        } else {
            Err(Failure::Overlay(trimmed(lossy(stderr))))
        },
    }
}

/// The loop device that `losetup` printed.
pub fn losetup_attach(output: &Output) -> (result: Result<String, FirecrackerError>)
    ensures
        match result {
            Ok(device) => losetup_result(output@) == Ok::<Seq<char>, Failure>(device@),
            Err(e) => losetup_result(output@) == Err::<Seq<char>, Failure>(e@),
        },
        output@ matches OutputView::Exited { success, stdout, stderr } ==> match result {
            Ok(device) => valid_utf8(stdout) ==> device@ == trimmed(decode_utf8(stdout)),
            Err(e) => valid_utf8(stderr) ==> e@ == Failure::Overlay(trimmed(decode_utf8(stderr))),
        },
{
    match output {
        Output::NotStarted(reason) => Err(
            FirecrackerError::Overlay(cat("losetup failed: ", reason.as_str())),
        ),
        Output::Exited { success, stdout, stderr } => if *success {
            Ok(trim_text(lossy_text(stdout.as_slice()).as_str()))
        } else {
            Err(
                FirecrackerError::Overlay(
                    trim_text(lossy_text(stderr.as_slice()).as_str()),
                ),
            )
        },
    }
}

/// The number of sectors that a printed text tells, or what is wrong.
pub open spec fn sectors_result(printed: Seq<char>) -> Result<u64, Failure> {
    match parse_unsigned(trimmed(printed), u64::MAX as nat) {
        Ok(sectors) => Ok(sectors as u64),
        Err(e) => Err(Failure::Overlay("blockdev parse failed: "@ + parse_failure_message(e))),
    }
}

/// The number of sectors that `printed` tells.
pub fn parse_sectors(printed: &str) -> (result: Result<u64, FirecrackerError>)
    ensures
        match result {
            Ok(sectors) => sectors_result(printed@) == Ok::<u64, Failure>(sectors),
            Err(e) => sectors_result(printed@) == Err::<u64, Failure>(e@),
        },
{
    match parse_unsigned_text(trim_text(printed).as_str(), u64::MAX) {
        Ok(sectors) => Ok(sectors),
        Err(e) => Err(
            FirecrackerError::Overlay(cat("blockdev parse failed: ", parse_failure_text(e))),
        ),
    }
}

/// The number of sectors that `blockdev` printed, or what is wrong. How it ended does not
/// matter.
pub open spec fn blockdev_result(output: OutputView) -> Result<u64, Failure> {
    match output {
        OutputView::NotStarted(reason) => Err(Failure::Overlay("blockdev failed: "@ + reason)),
        OutputView::Exited { success, stdout, stderr } => sectors_result(lossy(stdout)),
    }
}

/// The number of sectors that `blockdev` printed.
pub fn blockdev_getsz(output: &Output) -> (result: Result<u64, FirecrackerError>)
    ensures
        match result {
            Ok(sectors) => blockdev_result(output@) == Ok::<u64, Failure>(sectors),
            Err(e) => blockdev_result(output@) == Err::<u64, Failure>(e@),
        },
        output@ matches OutputView::Exited { success, stdout, stderr } ==> valid_utf8(stdout)
            ==> match result {
            Ok(sectors) => sectors_result(decode_utf8(stdout)) == Ok::<u64, Failure>(sectors),
            Err(e) => sectors_result(decode_utf8(stdout)) == Err::<u64, Failure>(e@),
        },
{
    match output {
        Output::NotStarted(reason) => Err(
            FirecrackerError::Overlay(cat("blockdev failed: ", reason.as_str())),
        ),
        Output::Exited { success: _, stdout, stderr: _ } => parse_sectors(
            lossy_text(stdout.as_slice()).as_str(),
        ),
    }
}

// ── Other answers ────────────────────────────────────────────────────────────

/// Judges whether the host has KVM: without `/dev/kvm` there is no VM.
pub fn check_kvm(present: bool) -> (result: Result<(), FirecrackerError>)
    ensures
        match result {
            Ok(_) => present,
            Err(e) => !present && e@ == Failure::KvmUnavailable,
        },
{
    if !present {
        return Err(FirecrackerError::KvmUnavailable);
    }
    Ok(())
}

/// Whether a wait that began at `started_at` has lasted the whole time that Firecracker may take.
pub open spec fn timed_out(started_at: u64, now: u64) -> bool {
    now >= started_at + API_READY_TIMEOUT_NANOS
}

/// Whether the API is there: `Some` when it is, `None` when a later look may find it.
pub fn wait_for_api(present: bool, started_at: u64, now: u64) -> (result: Result<
    Option<()>,
    FirecrackerError,
>)
    ensures
        match result {
            Ok(Some(_)) => present,
            Ok(None) => !present && !timed_out(started_at, now),
            Err(e) => !present && timed_out(started_at, now) && e@ == Failure::ApiConnect(
                "timed out waiting for Firecracker API socket"@,
            ),
        },
{
    if present {
        return Ok(Some(()));
    }
    if now >= started_at && now - started_at >= API_READY_TIMEOUT_NANOS {
        return Err(
            FirecrackerError::ApiConnect(
                "timed out waiting for Firecracker API socket".to_owned(),
            ),
        );
    }
    Ok(None)
}

/// Whether a wait that began at `started_at` has lasted the whole time that the supervisor may
/// take.
pub open spec fn supervisor_late(started_at: u64, now: u64) -> bool {
    now >= started_at + SUPERVISOR_READY_TIMEOUT_NANOS
}

/// Whether the supervisor is ready: `Some` when it is, `None` when a later look may find it so.
pub fn wait_for_supervisor(ready: bool, started_at: u64, now: u64) -> (result: Result<
    Option<()>,
    FirecrackerError,
>)
    ensures
        match result {
            Ok(Some(_)) => ready,
            Ok(None) => !ready && !supervisor_late(started_at, now),
            Err(e) => !ready && supervisor_late(started_at, now) && e@ == Failure::Snapshot(
                "timed out waiting for sandbox supervisor"@,
            ),
        },
{
    if ready {
        return Ok(Some(()));
    }
    if now >= started_at && now - started_at >= SUPERVISOR_READY_TIMEOUT_NANOS {
        return Err(
            FirecrackerError::Snapshot("timed out waiting for sandbox supervisor".to_owned()),
        );
    }
    Ok(None)
}

// ── Laws ─────────────────────────────────────────────────────────────────────

/// What is judged of an event is what the driver reported.
pub proof fn law_events_are_what_they_say(
    outcome: Outcome,
    output: Output,
    text: String,
    success: bool,
    stdout: Vec<u8>,
    stderr: Vec<u8>,
    present: bool,
    now: u64,
    exchange: Exchange,
    subnet: VmSubnet,
    entries: Vec<DirEntry>,
)
    ensures
        Outcome::NotStarted(text)@ == OutcomeView::NotStarted(text@),
        (Outcome::Exited { success, status: text })@ == (OutcomeView::Exited {
            success,
            status: text@,
        }),
        Output::NotStarted(text)@ == OutputView::NotStarted(text@),
        (Output::Exited { success, stdout, stderr })@ == (OutputView::Exited {
            success,
            stdout: stdout@,
            stderr: stderr@,
        }),
        Event::Ran(outcome)@ == EventView::Ran(outcome@),
        Event::Captured(output)@ == EventView::Captured(output@),
        Event::Finished(None)@ == EventView::Finished(None),
        Event::Finished(Some(text))@ == EventView::Finished(Some(text@)),
        Event::Presence(present)@ == EventView::Presence(present),
        Event::Clock(now)@ == EventView::Clock(now),
        (Event::Polled { present, now })@ == (EventView::Polled { present, now }),
        Event::Exchanged(exchange)@ == EventView::Exchanged(exchange@),
        Event::Subnet(subnet)@ == EventView::Subnet(subnet),
        Event::Listing(entries)@ == EventView::Listing(entries@),
{
}

} // verus!
