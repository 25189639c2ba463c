//! TAP devices for VM networking.
//!
//! Each VM gets a dedicated tap device. All VM egress goes through this tap, and the rules of
//! [`crate::routing`] redirect that egress to the host proxy.

use crate::facts::{args_text, no_facts, Arg, ArgView, Args, Facts, FactsView};
use crate::host::{asked, command, ActionView, Op, OpView};
use crate::id::{has_short, short, short_id};
use crate::plan::{attempts, must, Ops, Plan, StepView};
use crate::run::{fresh, ops_of, Run};
use crate::subnet::{dotted, VmSubnet};
use crate::text::{cat, decimal};
use vstd::prelude::*;
use vstd::string::*;

verus! {

/// A TAP device allocated for one Firecracker VM.
#[derive(Debug)]
pub struct TapDevice {
    /// Interface name, e.g. "fc-tap-a1b2c3d4".
    pub name: String,
    /// Subnet assigned to this tap.
    pub subnet: VmSubnet,
}

/// The name of a sandbox's tap device.
pub open spec fn tap_name(sandbox_id: Seq<char>) -> Seq<char> {
    "fc-tap-"@ + short(sandbox_id)
}

/// Creates the tap device `name`.
pub open spec fn tap_add(name: Seq<char>) -> OpView {
    OpView::Ip {
        task: "tuntap add"@,
        args: seq![
            ArgView::Text("tuntap"@),
            ArgView::Text("add"@),
            ArgView::Text("dev"@),
            ArgView::Text(name),
            ArgView::Text("mode"@),
            ArgView::Text("tap"@),
        ],
    }
}

/// Gives the tap device `name` the host's address.
pub open spec fn tap_address(name: Seq<char>) -> OpView {
    OpView::Ip {
        task: "addr add"@,
        args: seq![
            ArgView::Text("addr"@),
            ArgView::Text("add"@),
            ArgView::HostCidr,
            ArgView::Text("dev"@),
            ArgView::Text(name),
        ],
    }
}

/// Brings the tap device `name` up.
pub open spec fn tap_up(name: Seq<char>) -> OpView {
    OpView::Ip {
        task: "link set up"@,
        args: seq![
            ArgView::Text("link"@),
            ArgView::Text("set"@),
            ArgView::Text(name),
            ArgView::Text("up"@),
        ],
    }
}

/// Deletes the tap device `name`.
pub open spec fn tap_delete(name: Seq<char>) -> OpView {
    OpView::Ip {
        task: "tuntap del"@,
        args: seq![
            ArgView::Text("tuntap"@),
            ArgView::Text("del"@),
            ArgView::Text("dev"@),
            ArgView::Text(name),
            ArgView::Text("mode"@),
            ArgView::Text("tap"@),
        ],
    }
}

/// Makes a tap device: a subnet is taken, the device created, addressed and brought up.
pub open spec fn tap_create_steps(name: Seq<char>) -> Seq<StepView> {
    seq![
        must(OpView::AllocateSubnet),
        must(tap_add(name)),
        must(tap_address(name)),
        must(tap_up(name)),
    ]
}

/// Does away with a tap device.
pub open spec fn tap_destroy_ops(name: Seq<char>) -> Seq<OpView> {
    seq![tap_delete(name)]
}

/// The name of a sandbox's tap device.
pub(crate) fn tap_name_text(sandbox_id: &str) -> (name: String)
    requires
        has_short(sandbox_id@),
    ensures
        name@ == tap_name(sandbox_id@),
{
    cat("fc-tap-", short_id(sandbox_id))
}

/// The plan that makes the tap device `name`.
pub(crate) fn tap_create_plan(name: &str) -> (plan: Plan)
    ensures
        plan@ == tap_create_steps(name@),
{
    let add = Args::new().text("tuntap").text("add").text("dev").text(name).text("mode").text("tap");
    assert(add@ =~= tap_add(name@)->Ip_args);
    let address = Args::new().text("addr").text("add").with(Arg::HostCidr).text("dev").text(name);
    assert(address@ =~= tap_address(name@)->Ip_args);
    let up = Args::new().text("link").text("set").text(name).text("up");
    assert(up@ =~= tap_up(name@)->Ip_args);
    Plan::new().must(Op::AllocateSubnet).must(
        Op::Ip { task: "tuntap add".to_owned(), args: add },
    ).must(Op::Ip { task: "addr add".to_owned(), args: address }).must(
        Op::Ip { task: "link set up".to_owned(), args: up },
    )
}

/// The operations that do away with the tap device `name`.
pub(crate) fn tap_destroy_list(name: &str) -> (ops: Ops)
    ensures
        ops@ == tap_destroy_ops(name@),
{
    let args = Args::new().text("tuntap").text("del").text("dev").text(name).text("mode").text(
        "tap",
    );
    assert(args@ =~= tap_delete(name@)->Ip_args);
    Ops::new().with(Op::Ip { task: "tuntap del".to_owned(), args })
}

impl TapDevice {
    /// Creates a new tap device and brings it up with the host-side IP.
    pub fn create(sandbox_id: &str) -> (run: Run)
        requires
            has_short(sandbox_id@),
        ensures
            run@ == fresh(tap_create_steps(tap_name(sandbox_id@)), no_facts()),
            run@.valid(),
    {
        Run::new(tap_create_plan(tap_name_text(sandbox_id).as_str()), Facts::none())
    }

    /// The tap device of a sandbox, once it has been created with `subnet`.
    pub fn created(sandbox_id: &str, subnet: VmSubnet) -> (tap: TapDevice)
        requires
            has_short(sandbox_id@),
        ensures
            tap.name@ == tap_name(sandbox_id@),
            tap.subnet == subnet,
    {
        TapDevice { name: tap_name_text(sandbox_id), subnet }
    }

    /// Deletes the tap device. That this may fail does not matter.
    pub fn destroy(&self) -> (run: Run)
        ensures
            run@ == fresh(attempts(tap_destroy_ops(self.name@)), no_facts()),
            run@.valid(),
    {
        Run::new(
            Plan::new().attempt_all(&tap_destroy_list(self.name.as_str())),
            Facts::none(),
        )
    }
}

// ── Laws ─────────────────────────────────────────────────────────────────────

/// A sandbox's tap device is named `fc-tap-<id>`.
pub proof fn law_tap_name(sandbox_id: Seq<char>)
    ensures
        tap_name(sandbox_id) == "fc-tap-"@ + short(sandbox_id),
{
}

/// Making a tap device takes a subnet, creates the device, gives it the host's address with its
/// prefix length, and brings it up, each of which must succeed. Doing away with it deletes that
/// same device.
pub proof fn law_tap_commands(name: Seq<char>, facts: FactsView, subnet: VmSubnet)
    requires
        facts.subnet == Some(subnet),
    ensures
        ({
            let made = tap_create_steps(name);
            &&& asked(ops_of(made), facts) == seq![
                ActionView::AllocateSubnet,
                command("ip"@, seq!["tuntap"@, "add"@, "dev"@, name, "mode"@, "tap"@]),
                command(
                    "ip"@,
                    seq![
                        "addr"@,
                        "add"@,
                        dotted(subnet.host_ip) + "/"@ + decimal(subnet.prefix_len as nat),
                        "dev"@,
                        name,
                    ],
                ),
                command("ip"@, seq!["link"@, "set"@, name, "up"@]),
            ]
            &&& forall|k: int|
                0 <= k < made.len() ==> (#[trigger] made[k]).required && made[k].release
                    == Seq::<OpView>::empty()
            &&& made[1].op->Ip_task == "tuntap add"@
            &&& made[2].op->Ip_task == "addr add"@
            &&& made[3].op->Ip_task == "link set up"@
            &&& asked(tap_destroy_ops(name), facts) == seq![
                command("ip"@, seq!["tuntap"@, "del"@, "dev"@, name, "mode"@, "tap"@]),
            ]
        }),
{
    let cidr = dotted(subnet.host_ip) + "/"@ + decimal(subnet.prefix_len as nat);
    assert(args_text(tap_add(name)->Ip_args, facts) =~= seq![
        "tuntap"@,
        "add"@,
        "dev"@,
        name,
        "mode"@,
        "tap"@,
    ]);
    assert(args_text(tap_address(name)->Ip_args, facts) =~= seq![
        "addr"@,
        "add"@,
        cidr,
        "dev"@,
        name,
    ]);
    assert(args_text(tap_up(name)->Ip_args, facts) =~= seq!["link"@, "set"@, name, "up"@]);
    assert(args_text(tap_delete(name)->Ip_args, facts) =~= seq![
        "tuntap"@,
        "del"@,
        "dev"@,
        name,
        "mode"@,
        "tap"@,
    ]);
    assert(asked(ops_of(tap_create_steps(name)), facts) =~= seq![
        ActionView::AllocateSubnet,
        command("ip"@, seq!["tuntap"@, "add"@, "dev"@, name, "mode"@, "tap"@]),
        command("ip"@, seq!["addr"@, "add"@, cidr, "dev"@, name]),
        command("ip"@, seq!["link"@, "set"@, name, "up"@]),
    ]);
    assert(asked(tap_destroy_ops(name), facts) =~= seq![
        command("ip"@, seq!["tuntap"@, "del"@, "dev"@, name, "mode"@, "tap"@]),
    ]);
}

} // verus!
