//! Work on the host: the operations that a plan is made of, and the action that each asks of
//! the host.
//!
//! Nothing here touches the host. A driver performs an [`Action`] and reports an
//! [`Event`](crate::event::Event).

use crate::api::{ApiCall, Call};
use crate::facts::{args_text, ArgView, Args, Facts, FactsView};
use crate::subnet::Ipv4Addr;
use crate::text::{cat3, texts};
use vstd::prelude::*;
use vstd::string::*;

verus! {

// ── Operations ───────────────────────────────────────────────────────────────

/// Which of a snapshot's two loop devices.
#[derive(Clone, Copy, PartialEq, Eq, Debug, Structural)]
pub enum LoopRole {
    /// The base image, which the sandbox never writes.
    Base,
    /// The copy-on-write file, which takes the sandbox's writes.
    Cow,
}

/// One operation on the host.
#[derive(Debug)]
pub enum Op {
    /// Run `ip`, for the given task.
    Ip { task: String, args: Args },
    /// Run `iptables`.
    Iptables { args: Args },
    /// Set a kernel parameter.
    Sysctl { key: String, value: String },
    /// Run a disk tool, for the given task.
    Tool { task: String, program: String, args: Args },
    /// Attach a file to a free loop device.
    AttachLoop { role: LoopRole, path: String, read_only: bool },
    /// Ask for the size of the base image's loop device.
    SectorCount,
    /// Create a directory and its parents.
    MakeDir { path: String },
    /// Remove a file.
    RemoveFile { path: String },
    /// Remove a directory and what is in it.
    RemoveDir { path: String },
    /// Make sure that the host has KVM.
    RequireKvm,
    /// Make sure that the firecracker binary is there.
    RequireBinary { path: String },
    /// Start the firecracker process.
    Spawn { binary: String, socket_path: String },
    /// Note the time at which a wait begins.
    StartClock,
    /// Wait until the API socket is there.
    AwaitSocket { path: String },
    /// Wait until the sandbox supervisor in the guest is ready.
    AwaitSupervisor,
    /// Call the Firecracker API.
    Call(ApiCall),
    /// Let time pass.
    Sleep { millis: u64 },
    /// Kill the firecracker process and wait for its end.
    Kill,
    /// Kill the firecracker process without waiting.
    StartKill,
    /// Take the next subnet.
    AllocateSubnet,
    /// Find out how large an image a directory needs.
    MeasureDir { path: String },
}

/// The content of an [`Op`].
pub enum OpView {
    Ip { task: Seq<char>, args: Seq<ArgView> },
    Iptables { args: Seq<ArgView> },
    Sysctl { key: Seq<char>, value: Seq<char> },
    Tool { task: Seq<char>, program: Seq<char>, args: Seq<ArgView> },
    AttachLoop { role: LoopRole, path: Seq<char>, read_only: bool },
    SectorCount,
    MakeDir { path: Seq<char> },
    RemoveFile { path: Seq<char> },
    RemoveDir { path: Seq<char> },
    RequireKvm,
    RequireBinary { path: Seq<char> },
    Spawn { binary: Seq<char>, socket_path: Seq<char> },
    StartClock,
    AwaitSocket { path: Seq<char> },
    AwaitSupervisor,
    Call(Call),
    Sleep { millis: u64 },
    Kill,
    StartKill,
    AllocateSubnet,
    MeasureDir { path: Seq<char> },
}

impl View for Op {
    type V = OpView;

    open spec fn view(&self) -> OpView {
        match self {
            Op::Ip { task, args } => OpView::Ip { task: task@, args: args@ },
            Op::Iptables { args } => OpView::Iptables { args: args@ },
            Op::Sysctl { key, value } => OpView::Sysctl { key: key@, value: value@ },
            Op::Tool { task, program, args } => OpView::Tool {
                task: task@,
                program: program@,
                args: args@,
            },
            Op::AttachLoop { role, path, read_only } => OpView::AttachLoop {
                role: *role,
                path: path@,
                read_only: *read_only,
            },
            Op::SectorCount => OpView::SectorCount,
            Op::MakeDir { path } => OpView::MakeDir { path: path@ },
            Op::RemoveFile { path } => OpView::RemoveFile { path: path@ },
            Op::RemoveDir { path } => OpView::RemoveDir { path: path@ },
            Op::RequireKvm => OpView::RequireKvm,
            Op::RequireBinary { path } => OpView::RequireBinary { path: path@ },
            Op::Spawn { binary, socket_path } => OpView::Spawn {
                binary: binary@,
                socket_path: socket_path@,
            },
            Op::StartClock => OpView::StartClock,
            Op::AwaitSocket { path } => OpView::AwaitSocket { path: path@ },
            Op::AwaitSupervisor => OpView::AwaitSupervisor,
            Op::Call(call) => OpView::Call(call@),
            Op::Sleep { millis } => OpView::Sleep { millis: *millis },
            Op::Kill => OpView::Kill,
            Op::StartKill => OpView::StartKill,
            Op::AllocateSubnet => OpView::AllocateSubnet,
            Op::MeasureDir { path } => OpView::MeasureDir { path: path@ },
        }
    }
}

impl Clone for Op {
    fn clone(&self) -> (res: Self)
        ensures
            res@ == self@,
    {
        match self {
            Op::Ip { task, args } => Op::Ip { task: task.clone(), args: args.clone() },
            Op::Iptables { args } => Op::Iptables { args: args.clone() },
            Op::Sysctl { key, value } => Op::Sysctl { key: key.clone(), value: value.clone() },
            Op::Tool { task, program, args } => Op::Tool {
                task: task.clone(),
                program: program.clone(),
                args: args.clone(),
            },
            Op::AttachLoop { role, path, read_only } => Op::AttachLoop {
                role: *role,
                path: path.clone(),
                read_only: *read_only,
            },
            Op::SectorCount => Op::SectorCount,
            Op::MakeDir { path } => Op::MakeDir { path: path.clone() },
            Op::RemoveFile { path } => Op::RemoveFile { path: path.clone() },
            Op::RemoveDir { path } => Op::RemoveDir { path: path.clone() },
            Op::RequireKvm => Op::RequireKvm,
            Op::RequireBinary { path } => Op::RequireBinary { path: path.clone() },
            Op::Spawn { binary, socket_path } => Op::Spawn {
                binary: binary.clone(),
                socket_path: socket_path.clone(),
            },
            Op::StartClock => Op::StartClock,
            Op::AwaitSocket { path } => Op::AwaitSocket { path: path.clone() },
            Op::AwaitSupervisor => Op::AwaitSupervisor,
            Op::Call(call) => Op::Call(call.clone()),
            Op::Sleep { millis } => Op::Sleep { millis: *millis },
            Op::Kill => Op::Kill,
            Op::StartKill => Op::StartKill,
            Op::AllocateSubnet => Op::AllocateSubnet,
            Op::MeasureDir { path } => Op::MeasureDir { path: path.clone() },
        }
    }
}

// ── Actions ──────────────────────────────────────────────────────────────────

/// A program with its arguments.
#[derive(Debug)]
pub struct Program {
    pub name: String,
    pub args: Vec<String>,
}

/// The content of a [`Program`].
pub struct ProgramView {
    pub name: Seq<char>,
    pub args: Seq<Seq<char>>,
}

impl View for Program {
    type V = ProgramView;

    open spec fn view(&self) -> ProgramView {
        ProgramView { name: self.name@, args: texts(self.args@) }
    }
}

/// What the driver is to do next.
#[derive(Debug)]
pub enum Action<'a> {
    /// Run a program to its end. Answered by `Event::Ran`.
    Run(Program),
    /// Run a program to its end and keep what it wrote. Answered by `Event::Captured`.
    Capture(Program),
    /// Start a program and leave it running. Answered by `Event::Finished`.
    Spawn(Program),
    /// Create a directory and its parents. Answered by `Event::Finished`.
    CreateDirAll(&'a str),
    /// Remove a file. Answered by `Event::Finished`.
    RemoveFile(&'a str),
    /// Remove a directory and what is in it. Answered by `Event::Finished`.
    RemoveDirAll(&'a str),
    /// See whether a path exists. Answered by `Event::Presence`.
    CheckExists(&'a str),
    /// Read the clock. Answered by `Event::Clock`.
    ReadClock,
    /// See whether a path exists, then read the clock. Answered by `Event::Polled`.
    Poll(&'a str),
    /// See whether the sandbox supervisor at the guest's address (where that is known) is ready,
    /// then read the clock. Answered by `Event::Polled`.
    PollSupervisor(Option<Ipv4Addr>),
    /// Send a request and read the reply. Answered by `Event::Exchanged`.
    Send(&'a ApiCall),
    /// Let so many milliseconds pass. Answered by `Event::Finished`.
    Sleep(u64),
    /// Kill the started program and wait for its end. Answered by `Event::Finished`.
    Kill,
    /// Kill the started program. Answered by `Event::Finished`.
    StartKill,
    /// Take the next subnet. Answered by `Event::Subnet`.
    AllocateSubnet,
    /// List a directory with all that is in it. Answered by `Event::Listing`.
    ListDir(&'a str),
}

/// The content of an [`Action`].
pub enum ActionView {
    Run(ProgramView),
    Capture(ProgramView),
    Spawn(ProgramView),
    CreateDirAll(Seq<char>),
    RemoveFile(Seq<char>),
    RemoveDirAll(Seq<char>),
    CheckExists(Seq<char>),
    ReadClock,
    Poll(Seq<char>),
    PollSupervisor(Option<Ipv4Addr>),
    Send(Call),
    Sleep(u64),
    Kill,
    StartKill,
    AllocateSubnet,
    ListDir(Seq<char>),
}

impl<'a> View for Action<'a> {
    type V = ActionView;

    open spec fn view(&self) -> ActionView {
        match self {
            Action::Run(program) => ActionView::Run(program@),
            Action::Capture(program) => ActionView::Capture(program@),
            Action::Spawn(program) => ActionView::Spawn(program@),
            Action::CreateDirAll(path) => ActionView::CreateDirAll(path@),
            Action::RemoveFile(path) => ActionView::RemoveFile(path@),
            Action::RemoveDirAll(path) => ActionView::RemoveDirAll(path@),
            Action::CheckExists(path) => ActionView::CheckExists(path@),
            Action::ReadClock => ActionView::ReadClock,
            Action::Poll(path) => ActionView::Poll(path@),
            Action::PollSupervisor(guest) => ActionView::PollSupervisor(*guest),
            Action::Send(call) => ActionView::Send(call@),
            Action::Sleep(millis) => ActionView::Sleep(*millis),
            Action::Kill => ActionView::Kill,
            Action::StartKill => ActionView::StartKill,
            Action::AllocateSubnet => ActionView::AllocateSubnet,
            Action::ListDir(path) => ActionView::ListDir(path@),
        }
    }
}

/// The arguments that attach the file at `path` to a free loop device.
pub open spec fn losetup_args(path: Seq<char>, read_only: bool) -> Seq<Seq<char>> {
    if read_only {
        seq!["-f"@, "--show"@, "-r"@, path]
    } else {
        seq!["-f"@, "--show"@, path]
    }
}

/// The action that an operation asks for, given the facts.
pub open spec fn op_action(op: OpView, facts: FactsView) -> ActionView {
    match op {
        OpView::Ip { task, args } => ActionView::Run(
            ProgramView { name: "ip"@, args: args_text(args, facts) },
        ),
        OpView::Iptables { args } => ActionView::Run(
            ProgramView { name: "iptables"@, args: args_text(args, facts) },
        ),
        OpView::Sysctl { key, value } => ActionView::Run(
            ProgramView { name: "sysctl"@, args: seq!["-w"@, key + "="@ + value] },
        ),
        OpView::Tool { task, program, args } => ActionView::Run(
            ProgramView { name: program, args: args_text(args, facts) },
        ),
        OpView::AttachLoop { role, path, read_only } => ActionView::Capture(
            ProgramView { name: "losetup"@, args: losetup_args(path, read_only) },
        ),
        OpView::SectorCount => ActionView::Capture(
            ProgramView { name: "blockdev"@, args: seq!["--getsz"@, facts.base_loop] },
        ),
        OpView::MakeDir { path } => ActionView::CreateDirAll(path),
        OpView::RemoveFile { path } => ActionView::RemoveFile(path),
        OpView::RemoveDir { path } => ActionView::RemoveDirAll(path),
        OpView::RequireKvm => ActionView::CheckExists("/dev/kvm"@),
        OpView::RequireBinary { path } => ActionView::CheckExists(path),
        OpView::Spawn { binary, socket_path } => ActionView::Spawn(
            ProgramView { name: binary, args: seq!["--api-sock"@, socket_path] },
        ),
        OpView::StartClock => ActionView::ReadClock,
        OpView::AwaitSocket { path } => ActionView::Poll(path),
        OpView::AwaitSupervisor => ActionView::PollSupervisor(
            match facts.subnet {
                Some(subnet) => Some(subnet.guest_ip),
                None => None,
            },
        ),
        OpView::Call(call) => ActionView::Send(call),
        OpView::Sleep { millis } => ActionView::Sleep(millis),
        OpView::Kill => ActionView::Kill,
        OpView::StartKill => ActionView::StartKill,
        OpView::AllocateSubnet => ActionView::AllocateSubnet,
        OpView::MeasureDir { path } => ActionView::ListDir(path),
    }
}

/// A list of one text.
fn one(text: String) -> (list: Vec<String>)
    ensures
        texts(list@) == seq![text@],
{
    let mut list: Vec<String> = Vec::new();
    list.push(text);
    assert(texts(list@) =~= seq![text@]);
    list
}

/// A list and one text more.
fn more(list: Vec<String>, text: String) -> (longer: Vec<String>)
    ensures
        texts(longer@) == texts(list@).push(text@),
{
    let mut longer = list;
    longer.push(text);
    assert(texts(longer@) =~= texts(list@).push(text@));
    longer
}

impl Op {
    /// The action that this operation asks for, given the facts.
    pub fn action(&self, facts: &Facts) -> (action: Action<'_>)
        requires
            facts@.sound(),
        ensures
            action@ == op_action(self@, facts@),
    {
        match self {
            Op::Ip { task: _, args } => Action::Run(
                Program { name: "ip".to_owned(), args: args.resolve(facts) },
            ),
            Op::Iptables { args } => Action::Run(
                Program { name: "iptables".to_owned(), args: args.resolve(facts) },
            ),
            Op::Sysctl { key, value } => {
                let args = more(one("-w".to_owned()), cat3(key.as_str(), "=", value.as_str()));
                assert(texts(args@) =~= seq!["-w"@, key@ + "="@ + value@]);
                Action::Run(Program { name: "sysctl".to_owned(), args })
            },
            Op::Tool { task: _, program, args } => Action::Run(
                Program { name: program.clone(), args: args.resolve(facts) },
            ),
            Op::AttachLoop { role: _, path, read_only } => {
                let mut args = more(one("-f".to_owned()), "--show".to_owned());
                if *read_only {
                    args = more(args, "-r".to_owned());
                }
                let args = more(args, path.clone());
                assert(texts(args@) =~= losetup_args(path@, *read_only));
                Action::Capture(Program { name: "losetup".to_owned(), args })
            },
            Op::SectorCount => {
                let args = more(one("--getsz".to_owned()), facts.base_loop.clone());
                assert(texts(args@) =~= seq!["--getsz"@, facts.base_loop@]);
                Action::Capture(Program { name: "blockdev".to_owned(), args })
            },
            Op::MakeDir { path } => Action::CreateDirAll(path.as_str()),
            Op::RemoveFile { path } => Action::RemoveFile(path.as_str()),
            Op::RemoveDir { path } => Action::RemoveDirAll(path.as_str()),
            Op::RequireKvm => Action::CheckExists("/dev/kvm"),
            Op::RequireBinary { path } => Action::CheckExists(path.as_str()),
            Op::Spawn { binary, socket_path } => {
                let args = more(one("--api-sock".to_owned()), socket_path.clone());
                assert(texts(args@) =~= seq!["--api-sock"@, socket_path@]);
                Action::Spawn(Program { name: binary.clone(), args })
            },
            Op::StartClock => Action::ReadClock,
            Op::AwaitSocket { path } => Action::Poll(path.as_str()),
            Op::AwaitSupervisor => Action::PollSupervisor(
                match &facts.subnet {
                    Some(subnet) => Some(subnet.guest_ip),
                    None => None,
                },
            ),
            Op::Call(call) => Action::Send(call),
            Op::Sleep { millis } => Action::Sleep(*millis),
            Op::Kill => Action::Kill,
            Op::StartKill => Action::StartKill,
            Op::AllocateSubnet => Action::AllocateSubnet,
            Op::MeasureDir { path } => Action::ListDir(path.as_str()),
        }
    }
}

// ── Laws ─────────────────────────────────────────────────────────────────────

/// A program that is run to its end.
pub open spec fn command(name: Seq<char>, args: Seq<Seq<char>>) -> ActionView {
    ActionView::Run(ProgramView { name, args })
}

/// What some operations ask of the host, given the facts.
pub open spec fn asked(ops: Seq<OpView>, facts: FactsView) -> Seq<ActionView> {
    ops.map_values(|op: OpView| op_action(op, facts))
}

/// What the driver reads of an action is what the action is.
pub proof fn law_actions_are_what_they_say(
    program: Program,
    path: &str,
    call: &ApiCall,
    guest: Option<Ipv4Addr>,
    millis: u64,
)
    ensures
        program@.name == program.name@,
        program@.args.len() == program.args@.len(),
        forall|i: int|
            0 <= i < program.args@.len() ==> #[trigger] program@.args[i] == program.args@[i]@,
        Action::Run(program)@ == ActionView::Run(program@),
        Action::Capture(program)@ == ActionView::Capture(program@),
        Action::Spawn(program)@ == ActionView::Spawn(program@),
        Action::CreateDirAll(path)@ == ActionView::CreateDirAll(path@),
        Action::RemoveFile(path)@ == ActionView::RemoveFile(path@),
        Action::RemoveDirAll(path)@ == ActionView::RemoveDirAll(path@),
        Action::CheckExists(path)@ == ActionView::CheckExists(path@),
        Action::ReadClock@ == ActionView::ReadClock,
        Action::Poll(path)@ == ActionView::Poll(path@),
        Action::PollSupervisor(guest)@ == ActionView::PollSupervisor(guest),
        Action::Send(call)@ == ActionView::Send(call@),
        Action::Sleep(millis)@ == ActionView::Sleep(millis),
        Action::Kill@ == ActionView::Kill,
        Action::StartKill@ == ActionView::StartKill,
        Action::AllocateSubnet@ == ActionView::AllocateSubnet,
        Action::ListDir(path)@ == ActionView::ListDir(path@),
{
}

} // verus!
