//! The verdict on an operation, by the event that answered it.

use crate::api::{check_exchange, exchange_failure, Call, ExchangeView};
use crate::error::{message, Failure, FirecrackerError};
use crate::event::{
    answers, blockdev_getsz, blockdev_result, check_kvm, cmd_failure, ip_failure, iptables_failure,
    losetup_attach, losetup_result, run_cmd, run_ip, run_iptables, run_sysctl, supervisor_late,
    sysctl_failure, timed_out, wait_for_api, wait_for_supervisor, Event, EventView, OutcomeView,
    OutputView,
};
use crate::facts::{arg_text, args_text, ArgView, Facts, FactsView};
use crate::host::{op_action, ActionView, LoopRole, Op, OpView, ProgramView};
use crate::size::{
    dir_size_mb, in_mb, law_size_holds_all_files, law_size_in_mb, listing_bytes, listing_fits,
    total_len, DirEntry,
};
use crate::subnet::{Ipv4Addr, VmSubnet};
use crate::text::{cat3, lossy, parse_unsigned, spaced, trimmed, ParseFailure};
use vstd::prelude::*;
use vstd::string::*;

verus! {

/// What a packed workspace image holds beyond the directory's size, in MiB.
pub const SLACK_MB: u64 = 512;

/// What becomes of an operation.
#[derive(Debug)]
pub enum Verdict {
    /// It has succeeded.
    Pass,
    /// It is to be tried again after a pause.
    Pause,
    /// It has failed.
    Fail(FirecrackerError),
}

/// What becomes of an operation. A success brings the facts that hold from then on.
pub enum VerdictView {
    Pass(FactsView),
    Pause,
    Fail(Failure),
}

/// The failure of a step of a larger task, told with the task's name.
pub open spec fn task_failed(task: Seq<char>, reason: Seq<char>) -> Seq<char> {
    task + " failed: "@ + reason
}

/// A pass when nothing is wrong.
pub open spec fn unless(failure: Option<Failure>, facts: FactsView) -> VerdictView {
    match failure {
        None => VerdictView::Pass(facts),
        Some(f) => VerdictView::Fail(f),
    }
}

/// The verdict on `op` when `event` answers it.
pub open spec fn judge(op: OpView, facts: FactsView, event: EventView) -> VerdictView {
    match (op, event) {
        (OpView::Ip { task, args }, EventView::Ran(outcome)) => match ip_failure(
            args_text(args, facts),
            outcome,
        ) {
            None => VerdictView::Pass(facts),
            Some(f) => VerdictView::Fail(Failure::Tap(task_failed(task, message(f)))),
        },
        (OpView::Iptables { args }, EventView::Ran(outcome)) => unless(
            iptables_failure(args_text(args, facts), outcome),
            facts,
        ),
        (OpView::Sysctl { key, value }, EventView::Ran(outcome)) => unless(
            sysctl_failure(key, value, outcome),
            facts,
        ),
        (OpView::Tool { task, program, args }, EventView::Ran(outcome)) => match cmd_failure(
            program,
            outcome,
        ) {
            None => VerdictView::Pass(facts),
            Some(reason) => VerdictView::Fail(Failure::Overlay(task_failed(task, reason))),
        },
        (
            OpView::AttachLoop { role, path, read_only },
            EventView::Captured(output),
        ) => match losetup_result(output) {
            Ok(device) => VerdictView::Pass(
                match role {
                    LoopRole::Base => FactsView { base_loop: device, ..facts },
                    LoopRole::Cow => FactsView { cow_loop: device, ..facts },
                },
            ),
            Err(f) => VerdictView::Fail(f),
        },
        (OpView::SectorCount, EventView::Captured(output)) => match blockdev_result(output) {
            Ok(sectors) => VerdictView::Pass(FactsView { sectors, ..facts }),
            Err(f) => VerdictView::Fail(f),
        },
        (OpView::RequireKvm, EventView::Presence(present)) => if present {
            VerdictView::Pass(facts)
        } else {
            VerdictView::Fail(Failure::KvmUnavailable)
        },
        (OpView::RequireBinary { path }, EventView::Presence(present)) => if present {
            VerdictView::Pass(facts)
        } else {
            VerdictView::Fail(Failure::BinaryNotFound { path })
        },
        (OpView::Sleep { millis }, EventView::Finished(_)) => VerdictView::Pass(facts),
        (OpView::Spawn { binary, socket_path }, EventView::Finished(Some(reason))) => {
            VerdictView::Fail(Failure::Process(reason))
        },
        (_, EventView::Finished(Some(reason))) => VerdictView::Fail(Failure::Io(reason)),
        (OpView::StartClock, EventView::Clock(now)) => VerdictView::Pass(
            FactsView { started_at: now, ..facts },
        ),
        (OpView::AwaitSocket { path }, EventView::Polled { present, now }) => if present {
            VerdictView::Pass(facts)
        } else if timed_out(facts.started_at, now) {
            VerdictView::Fail(
                Failure::ApiConnect("timed out waiting for Firecracker API socket"@),
            )
        } else {
            VerdictView::Pause
        },
        (OpView::AwaitSupervisor, EventView::Polled { present, now }) => if present {
            VerdictView::Pass(facts)
        } else if supervisor_late(facts.started_at, now) {
            VerdictView::Fail(Failure::Snapshot("timed out waiting for sandbox supervisor"@))
        } else {
            VerdictView::Pause
        },
        (OpView::Call(call), EventView::Exchanged(exchange)) => unless(
            exchange_failure(exchange),
            facts,
        ),
        (OpView::AllocateSubnet, EventView::Subnet(subnet)) => VerdictView::Pass(
            FactsView { subnet: Some(subnet), ..facts },
        ),
        (OpView::MeasureDir { path }, EventView::Listing(entries)) => VerdictView::Pass(
            FactsView { packed_mb: (in_mb(listing_bytes(entries)) + SLACK_MB) as u64, ..facts },
        ),
        _ => VerdictView::Pass(facts),
    }
}

/// The verdict that stands for a result.
fn passed_or(result: Result<(), FirecrackerError>) -> (verdict: Verdict)
    ensures
        match result {
            Ok(_) => verdict is Pass,
            Err(e) => verdict matches Verdict::Fail(f) && f@ == e@,
        },
{
    match result {
        Ok(_) => Verdict::Pass,
        Err(e) => Verdict::Fail(e),
    }
}

impl Op {
    /// The verdict on this operation when `event` answers it. What a success tells is added to
    /// the facts.
    pub fn judge(&self, facts: &mut Facts, event: Event) -> (verdict: Verdict)
        requires
            old(facts)@.sound(),
            answers(op_action(self@, old(facts)@), event@),
        ensures
            match verdict {
                Verdict::Pass => judge(self@, old(facts)@, event@) == VerdictView::Pass(
                    final(facts)@,
                ),
                Verdict::Pause => judge(self@, old(facts)@, event@) is Pause && final(facts)@
                    == old(facts)@,
                Verdict::Fail(e) => judge(self@, old(facts)@, event@) == VerdictView::Fail(e@)
                    && final(facts)@ == old(facts)@,
            },
            final(facts)@.sound(),
    {
        match (self, event) {
            (Op::Ip { task, args }, Event::Ran(outcome)) => {
                let list = args.resolve(facts);
                match run_ip(&list, &outcome) {
                    Ok(_) => Verdict::Pass,
                    Err(e) => Verdict::Fail(
                        FirecrackerError::Tap(
                            cat3(task.as_str(), " failed: ", e.message().as_str()),
                        ),
                    ),
                }
            },
            (Op::Iptables { args }, Event::Ran(outcome)) => {
                let list = args.resolve(facts);
                passed_or(run_iptables(&list, &outcome))
            },
            (Op::Sysctl { key, value }, Event::Ran(outcome)) => passed_or(
                run_sysctl(key.as_str(), value.as_str(), &outcome),
            ),
            (Op::Tool { task, program, args: _ }, Event::Ran(outcome)) => match run_cmd(
                program.as_str(),
                &outcome,
            ) {
                Ok(_) => Verdict::Pass,
                Err(reason) => Verdict::Fail(
                    FirecrackerError::Overlay(cat3(task.as_str(), " failed: ", reason.as_str())),
                ),
            },
            (
                Op::AttachLoop { role, path: _, read_only: _ },
                Event::Captured(output),
            ) => match losetup_attach(&output) {
                Ok(device) => {
                    match role {
                        LoopRole::Base => {
                            facts.base_loop = device;
                        },
                        LoopRole::Cow => {
                            facts.cow_loop = device;
                        },
                    }
                    Verdict::Pass
                },
                Err(e) => Verdict::Fail(e),
            },
            (Op::SectorCount, Event::Captured(output)) => match blockdev_getsz(&output) {
                Ok(sectors) => {
                    facts.sectors = sectors;
                    Verdict::Pass
                },
                Err(e) => Verdict::Fail(e),
            },
            (Op::RequireKvm, Event::Presence(present)) => passed_or(check_kvm(present)),
            (Op::RequireBinary { path }, Event::Presence(present)) => if present {
                Verdict::Pass
            } else {
                Verdict::Fail(FirecrackerError::BinaryNotFound { path: path.clone() })
            },
            (Op::Sleep { millis: _ }, Event::Finished(_)) => Verdict::Pass,
            (Op::Spawn { binary: _, socket_path: _ }, Event::Finished(Some(reason))) => {
                Verdict::Fail(FirecrackerError::Process(reason))
            },
            (_, Event::Finished(Some(reason))) => Verdict::Fail(FirecrackerError::Io(reason)),
            (Op::StartClock, Event::Clock(now)) => {
                facts.started_at = now;
                Verdict::Pass
            },
            (Op::AwaitSocket { path: _ }, Event::Polled { present, now }) => match wait_for_api(
                present,
                facts.started_at,
                now,
            ) {
                Ok(Some(_)) => Verdict::Pass,
                Ok(None) => Verdict::Pause,
                Err(e) => Verdict::Fail(e),
            },
            (Op::AwaitSupervisor, Event::Polled { present, now }) => match wait_for_supervisor(
                present,
                facts.started_at,
                now,
            ) {
                Ok(Some(_)) => Verdict::Pass,
                Ok(None) => Verdict::Pause,
                Err(e) => Verdict::Fail(e),
            },
            (Op::Call(_), Event::Exchanged(exchange)) => passed_or(check_exchange(&exchange)),
            (Op::AllocateSubnet, Event::Subnet(subnet)) => {
                facts.subnet = Some(subnet);
                Verdict::Pass
            },
            (Op::MeasureDir { path: _ }, Event::Listing(entries)) => {
                facts.packed_mb = dir_size_mb(&entries) + SLACK_MB;
                Verdict::Pass
            },
            _ => Verdict::Pass,
        }
    }
}

// ── Laws ─────────────────────────────────────────────────────────────────────

/// A program that is only to be run passes exactly where it ended in success, and tells nothing
/// new. Else the error names the program or the task, and tells why it did not start or how it
/// ended.
pub proof fn law_programs_pass_by_success(
    task: Seq<char>,
    program: Seq<char>,
    key: Seq<char>,
    value: Seq<char>,
    args: Seq<ArgView>,
    facts: FactsView,
    text: Seq<char>,
)
    ensures
        ({
            let ok = EventView::Ran(OutcomeView::Exited { success: true, status: text });
            let failed = EventView::Ran(OutcomeView::Exited { success: false, status: text });
            let missing = EventView::Ran(OutcomeView::NotStarted(text));
            let ip = OpView::Ip { task, args };
            let iptables = OpView::Iptables { args };
            let sysctl = OpView::Sysctl { key, value };
            let tool = OpView::Tool { task, program, args };
            let pass = VerdictView::Pass(facts);
            let line = spaced(args.map_values(|a: ArgView| arg_text(a, facts)));
            &&& judge(ip, facts, ok) == pass
            &&& judge(iptables, facts, ok) == pass
            &&& judge(sysctl, facts, ok) == pass
            &&& judge(tool, facts, ok) == pass
            &&& judge(ip, facts, failed) == VerdictView::Fail(
                Failure::Tap(
                    task + " failed: "@ + ("tap device error: "@ + ("ip "@ + line
                        + " exited with "@ + text)),
                ),
            )
            &&& judge(ip, facts, missing) == VerdictView::Fail(
                Failure::Tap(
                    task + " failed: "@ + ("tap device error: "@ + ("ip command failed: "@ + text)),
                ),
            )
            &&& judge(iptables, facts, failed) == VerdictView::Fail(
                Failure::Routing("iptables "@ + line + " exited with "@ + text),
            )
            &&& judge(iptables, facts, missing) == VerdictView::Fail(Failure::Routing(text))
            &&& judge(sysctl, facts, failed) == VerdictView::Fail(
                Failure::Routing("sysctl "@ + key + "="@ + value + " failed"@),
            )
            &&& judge(sysctl, facts, missing) == VerdictView::Fail(Failure::Routing(text))
            &&& judge(tool, facts, failed) == VerdictView::Fail(
                Failure::Overlay(task + " failed: "@ + (program + " exited with "@ + text)),
            )
            &&& judge(tool, facts, missing) == VerdictView::Fail(
                Failure::Overlay(task + " failed: "@ + text),
            )
        }),
{
    assert(args_text(args, facts) =~= args.map_values(|a: ArgView| arg_text(a, facts)));
}

/// `losetup` tells, where it succeeds, the loop device of the role that it was attached for, and
/// nothing else: what it printed, without white space around it. Where it fails, the error is
/// what it printed as its error.
pub proof fn law_losetup_tells_its_device(
    path: Seq<char>,
    read_only: bool,
    facts: FactsView,
    stdout: Seq<u8>,
    stderr: Seq<u8>,
    reason: Seq<char>,
)
    ensures
        ({
            let base = OpView::AttachLoop { role: LoopRole::Base, path, read_only };
            let cow = OpView::AttachLoop { role: LoopRole::Cow, path, read_only };
            let ok = EventView::Captured(OutputView::Exited { success: true, stdout, stderr });
            let failed = EventView::Captured(
                OutputView::Exited { success: false, stdout, stderr },
            );
            let missing = EventView::Captured(OutputView::NotStarted(reason));
            let refused = VerdictView::Fail(Failure::Overlay(trimmed(lossy(stderr))));
            let absent = VerdictView::Fail(Failure::Overlay("losetup failed: "@ + reason));
            &&& judge(base, facts, ok) == VerdictView::Pass(
                FactsView { base_loop: trimmed(lossy(stdout)), ..facts },
            )
            &&& judge(cow, facts, ok) == VerdictView::Pass(
                FactsView { cow_loop: trimmed(lossy(stdout)), ..facts },
            )
            &&& judge(base, facts, failed) == refused
            &&& judge(cow, facts, failed) == refused
            &&& judge(base, facts, missing) == absent
            &&& judge(cow, facts, missing) == absent
        }),
{
}

/// `blockdev` tells, however it ends, the number of sectors that it printed, and nothing else.
/// Where it printed no number of 64 bits, the error tells why.
pub proof fn law_blockdev_tells_the_sectors(
    facts: FactsView,
    success: bool,
    stdout: Seq<u8>,
    stderr: Seq<u8>,
    reason: Seq<char>,
)
    ensures
        ({
            let ended = EventView::Captured(OutputView::Exited { success, stdout, stderr });
            let missing = EventView::Captured(OutputView::NotStarted(reason));
            &&& judge(OpView::SectorCount, facts, ended) == match parse_unsigned(
                trimmed(lossy(stdout)),
                u64::MAX as nat,
            ) {
                Ok(n) => VerdictView::Pass(FactsView { sectors: n as u64, ..facts }),
                Err(ParseFailure::Empty) => VerdictView::Fail(
                    Failure::Overlay(
                        "blockdev parse failed: "@ + "cannot parse integer from empty string"@,
                    ),
                ),
                Err(ParseFailure::InvalidDigit) => VerdictView::Fail(
                    Failure::Overlay(
                        "blockdev parse failed: "@ + "invalid digit found in string"@,
                    ),
                ),
                Err(ParseFailure::TooLarge) => VerdictView::Fail(
                    Failure::Overlay(
                        "blockdev parse failed: "@ + "number too large to fit in target type"@,
                    ),
                ),
            }
            &&& judge(OpView::SectorCount, facts, missing) == VerdictView::Fail(
                Failure::Overlay("blockdev failed: "@ + reason),
            )
        }),
{
}

/// What must be there and is not is told by its own error; what is there passes.
pub proof fn law_what_is_missing_is_told(path: Seq<char>, facts: FactsView)
    ensures
        judge(OpView::RequireKvm, facts, EventView::Presence(true)) == VerdictView::Pass(facts),
        judge(OpView::RequireKvm, facts, EventView::Presence(false)) == VerdictView::Fail(
            Failure::KvmUnavailable,
        ),
        judge(OpView::RequireBinary { path }, facts, EventView::Presence(true))
            == VerdictView::Pass(facts),
        judge(OpView::RequireBinary { path }, facts, EventView::Presence(false))
            == VerdictView::Fail(Failure::BinaryNotFound { path }),
{
}

/// What the operating system is asked for passes where it was done, and fails with the system's
/// reason where it was not: a process error for the start of the VM's process, an I/O error else.
/// Letting time pass cannot fail.
pub proof fn law_system_errors_are_told(
    a: Seq<char>,
    b: Seq<char>,
    millis: u64,
    facts: FactsView,
    reason: Seq<char>,
)
    ensures
        ({
            let done = EventView::Finished(None);
            let failed = EventView::Finished(Some(reason));
            let pass = VerdictView::Pass(facts);
            let io = VerdictView::Fail(Failure::Io(reason));
            &&& judge(OpView::MakeDir { path: a }, facts, done) == pass
            &&& judge(OpView::RemoveFile { path: a }, facts, done) == pass
            &&& judge(OpView::RemoveDir { path: a }, facts, done) == pass
            &&& judge(OpView::Spawn { binary: a, socket_path: b }, facts, done) == pass
            &&& judge(OpView::Kill, facts, done) == pass
            &&& judge(OpView::StartKill, facts, done) == pass
            &&& judge(OpView::Sleep { millis }, facts, done) == pass
            &&& judge(OpView::Sleep { millis }, facts, failed) == pass
            &&& judge(OpView::MakeDir { path: a }, facts, failed) == io
            &&& judge(OpView::RemoveFile { path: a }, facts, failed) == io
            &&& judge(OpView::RemoveDir { path: a }, facts, failed) == io
            &&& judge(OpView::Kill, facts, failed) == io
            &&& judge(OpView::StartKill, facts, failed) == io
            &&& judge(OpView::Spawn { binary: a, socket_path: b }, facts, failed)
                == VerdictView::Fail(Failure::Process(reason))
        }),
{
}

/// A wait passes where what it waits for is there. Else it is to be tried again for 5 seconds (the
/// API socket) or 60 (the supervisor) from the time that was noted, and fails from then on.
pub proof fn law_waits(path: Seq<char>, facts: FactsView, start: u64, now: u64)
    ensures
        ({
            let socket = OpView::AwaitSocket { path };
            let there = EventView::Polled { present: true, now };
            let absent = EventView::Polled { present: false, now };
            let since = now - facts.started_at;
            &&& judge(OpView::StartClock, facts, EventView::Clock(start)) == VerdictView::Pass(
                FactsView { started_at: start, ..facts },
            )
            &&& judge(socket, facts, there) == VerdictView::Pass(facts)
            &&& judge(OpView::AwaitSupervisor, facts, there) == VerdictView::Pass(facts)
            &&& judge(socket, facts, absent) == if since < 5_000_000_000 {
                VerdictView::Pause
            } else {
                VerdictView::Fail(
                    Failure::ApiConnect("timed out waiting for Firecracker API socket"@),
                )
            }
            &&& judge(OpView::AwaitSupervisor, facts, absent) == if since < 60_000_000_000 {
                VerdictView::Pause
            } else {
                VerdictView::Fail(Failure::Snapshot("timed out waiting for sandbox supervisor"@))
            }
        }),
{
}

/// A call passes exactly where its exchange has no failure; that failure is the error else. A
/// subnet that was taken is known from then on.
pub proof fn law_calls_and_subnets(
    call: Call,
    exchange: ExchangeView,
    subnet: VmSubnet,
    facts: FactsView,
)
    ensures
        judge(OpView::Call(call), facts, EventView::Exchanged(exchange)) == match exchange_failure(
            exchange,
        ) {
            Some(failure) => VerdictView::Fail(failure),
            None => VerdictView::Pass(facts),
        },
        judge(OpView::AllocateSubnet, facts, EventView::Subnet(subnet)) == VerdictView::Pass(
            FactsView { subnet: Some(subnet), ..facts },
        ),
{
}

/// The image for a directory holds all its files with room to spare: it has the directory's size
/// and 512 MiB more, and so more than 511 MiB beyond the files' lengths.
pub proof fn law_image_holds_the_directory(
    path: Seq<char>,
    facts: FactsView,
    entries: Seq<DirEntry>,
)
    requires
        listing_fits(entries),
    ensures
        ({
            let verdict = judge(OpView::MeasureDir { path }, facts, EventView::Listing(entries));
            &&& verdict is Pass
            &&& verdict->Pass_0.packed_mb == in_mb(listing_bytes(entries)) + 512
            &&& verdict->Pass_0.packed_mb * 1048576 > total_len(entries) + 511 * 1048576
            &&& verdict->Pass_0 == (FactsView {
                packed_mb: verdict->Pass_0.packed_mb,
                ..facts
            })
        }),
{
    law_size_holds_all_files(entries);
    law_size_in_mb(listing_bytes(entries));
}

/// Every kind of action has an answer whatever comes of it: a program may end in any way, what
/// the system is asked for may be done or not, a look may find something or not.
pub proof fn law_any_outcome_answers(
    program: ProgramView,
    path: Seq<char>,
    call: Call,
    guest: Option<Ipv4Addr>,
    millis: u64,
    outcome: OutcomeView,
    output: OutputView,
    reason: Option<Seq<char>>,
    present: bool,
    now: u64,
    exchange: ExchangeView,
)
    ensures
        answers(ActionView::Run(program), EventView::Ran(outcome)),
        answers(ActionView::Capture(program), EventView::Captured(output)),
        answers(ActionView::Spawn(program), EventView::Finished(reason)),
        answers(ActionView::CreateDirAll(path), EventView::Finished(reason)),
        answers(ActionView::RemoveFile(path), EventView::Finished(reason)),
        answers(ActionView::RemoveDirAll(path), EventView::Finished(reason)),
        answers(ActionView::CheckExists(path), EventView::Presence(present)),
        answers(ActionView::ReadClock, EventView::Clock(now)),
        answers(ActionView::Poll(path), EventView::Polled { present, now }),
        answers(ActionView::PollSupervisor(guest), EventView::Polled { present, now }),
        answers(ActionView::Send(call), EventView::Exchanged(exchange)),
        answers(ActionView::Sleep(millis), EventView::Finished(reason)),
        answers(ActionView::Kill, EventView::Finished(reason)),
        answers(ActionView::StartKill, EventView::Finished(reason)),
        forall|subnet: VmSubnet|
            subnet.host_ip.d >= 1 ==> #[trigger] answers(
                ActionView::AllocateSubnet,
                EventView::Subnet(subnet),
            ),
        forall|entries: Seq<DirEntry>|
            listing_bytes(entries) <= u64::MAX ==> #[trigger] answers(
                ActionView::ListDir(path),
                EventView::Listing(entries),
            ),
{
}

/// An action is answered by an event of its own kind alone.
pub proof fn law_only_its_kind_answers(
    program: ProgramView,
    path: Seq<char>,
    call: Call,
    guest: Option<Ipv4Addr>,
    millis: u64,
    event: EventView,
)
    ensures
        answers(ActionView::Run(program), event) ==> event is Ran,
        answers(ActionView::Capture(program), event) ==> event is Captured,
        answers(ActionView::Spawn(program), event) ==> event is Finished,
        answers(ActionView::CreateDirAll(path), event) ==> event is Finished,
        answers(ActionView::RemoveFile(path), event) ==> event is Finished,
        answers(ActionView::RemoveDirAll(path), event) ==> event is Finished,
        answers(ActionView::CheckExists(path), event) ==> event is Presence,
        answers(ActionView::ReadClock, event) ==> event is Clock,
        answers(ActionView::Poll(path), event) ==> event is Polled,
        answers(ActionView::PollSupervisor(guest), event) ==> event is Polled,
        answers(ActionView::Send(call), event) ==> event is Exchanged,
        answers(ActionView::Sleep(millis), event) ==> event is Finished,
        answers(ActionView::Kill, event) ==> event is Finished,
        answers(ActionView::StartKill, event) ==> event is Finished,
        answers(ActionView::AllocateSubnet, event) ==> (event matches EventView::Subnet(subnet)
            && subnet.host_ip.d >= 1),
        answers(ActionView::ListDir(path), event) ==> (event matches EventView::Listing(entries)
            && listing_bytes(entries) <= u64::MAX),
{
}

/// What an operation that stands alone asks of the host: its own path, its own time, the guest of
/// the subnet that was told.
pub proof fn law_operations_ask_for_themselves(
    path: Seq<char>,
    key: Seq<char>,
    value: Seq<char>,
    socket: Seq<char>,
    millis: u64,
    call: Call,
    facts: FactsView,
)
    ensures
        op_action(OpView::Sysctl { key, value }, facts) == ActionView::Run(
            ProgramView { name: "sysctl"@, args: seq!["-w"@, key + "="@ + value] },
        ),
        op_action(OpView::MakeDir { path }, facts) == ActionView::CreateDirAll(path),
        op_action(OpView::RemoveFile { path }, facts) == ActionView::RemoveFile(path),
        op_action(OpView::RemoveDir { path }, facts) == ActionView::RemoveDirAll(path),
        op_action(OpView::RequireKvm, facts) == ActionView::CheckExists("/dev/kvm"@),
        op_action(OpView::RequireBinary { path }, facts) == ActionView::CheckExists(path),
        op_action(OpView::Spawn { binary: path, socket_path: socket }, facts) == ActionView::Spawn(
            ProgramView { name: path, args: seq!["--api-sock"@, socket] },
        ),
        op_action(OpView::StartClock, facts) == ActionView::ReadClock,
        op_action(OpView::AwaitSocket { path }, facts) == ActionView::Poll(path),
        op_action(OpView::AwaitSupervisor, facts) == ActionView::PollSupervisor(
            match facts.subnet {
                Some(subnet) => Some(subnet.guest_ip),
                None => None,
            },
        ),
        op_action(OpView::Call(call), facts) == ActionView::Send(call),
        op_action(OpView::Sleep { millis }, facts) == ActionView::Sleep(millis),
        op_action(OpView::Kill, facts) == ActionView::Kill,
        op_action(OpView::StartKill, facts) == ActionView::StartKill,
        op_action(OpView::AllocateSubnet, facts) == ActionView::AllocateSubnet,
        op_action(OpView::MeasureDir { path }, facts) == ActionView::ListDir(path),
{
}

} // verus!
