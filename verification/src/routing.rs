//! iptables rules that redirect VM egress through the host-side proxy.
//!
//! All TCP traffic from the VM's /30 subnet is redirected to the proxy port via REDIRECT.
//! Everything else from the subnet is dropped.

use crate::facts::{args_text, no_facts, Arg, ArgView, Args, Facts, FactsView};
use crate::host::{asked, command, Op, OpView};
use crate::plan::{attempts, must, Ops, Plan, StepView};
use crate::run::{fresh, ops_of, Run};
use crate::subnet::{has_network, network_cidr, VmSubnet};
use crate::text::{decimal, decimal_text};
use vstd::prelude::*;
use vstd::string::*;

verus! {

/// Proxy port on the host where the per-VM L7 proxy listens.
pub const PROXY_PORT: u16 = 3128;

/// The two rules of a VM's subnet.
#[derive(Clone, Copy, PartialEq, Eq, Debug, Structural)]
pub enum Rule {
    /// TCP goes to the proxy.
    RedirectTcp,
    /// What is not TCP is dropped.
    DropOther,
}

/// What is done with a rule.
#[derive(Clone, Copy, PartialEq, Eq, Debug, Structural)]
pub enum Change {
    Append,
    Delete,
}

/// The flag that makes a change.
pub open spec fn change_flag(change: Change) -> Seq<char> {
    match change {
        Change::Append => "-A"@,
        Change::Delete => "-D"@,
    }
}

/// The arguments of `iptables` that make a change to a rule.
pub open spec fn rule_args(rule: Rule, change: Change) -> Seq<ArgView> {
    match rule {
        Rule::RedirectTcp => seq![
            ArgView::Text("-t"@),
            ArgView::Text("nat"@),
            ArgView::Text(change_flag(change)),
            ArgView::Text("PREROUTING"@),
            ArgView::Text("-s"@),
            ArgView::NetworkCidr,
            ArgView::Text("-p"@),
            ArgView::Text("tcp"@),
            ArgView::Text("-j"@),
            ArgView::Text("REDIRECT"@),
            ArgView::Text("--to-port"@),
            ArgView::Text(decimal(PROXY_PORT as nat)),
        ],
        Rule::DropOther => seq![
            ArgView::Text(change_flag(change)),
            ArgView::Text("FORWARD"@),
            ArgView::Text("-s"@),
            ArgView::NetworkCidr,
            ArgView::Text("!"@),
            ArgView::Text("-p"@),
            ArgView::Text("tcp"@),
            ArgView::Text("-j"@),
            ArgView::Text("DROP"@),
        ],
    }
}

/// Makes a change to a rule.
pub open spec fn rule_op(rule: Rule, change: Change) -> OpView {
    OpView::Iptables { args: rule_args(rule, change) }
}

/// Turns IP forwarding on.
pub open spec fn enable_forwarding() -> OpView {
    OpView::Sysctl { key: "net.ipv4.ip_forward"@, value: "1"@ }
}

/// Turns forwarding on, then appends both rules.
pub open spec fn routing_install_steps() -> Seq<StepView> {
    seq![
        must(enable_forwarding()),
        must(rule_op(Rule::RedirectTcp, Change::Append)),
        must(rule_op(Rule::DropOther, Change::Append)),
    ]
}

/// Deletes both rules.
pub open spec fn routing_remove_ops() -> Seq<OpView> {
    seq![
        rule_op(Rule::RedirectTcp, Change::Delete),
        rule_op(Rule::DropOther, Change::Delete),
    ]
}

/// What is known of the subnet alone.
pub open spec fn subnet_facts(subnet: VmSubnet) -> FactsView {
    FactsView { subnet: Some(subnet), ..no_facts() }
}

fn change_rule(rule: Rule, change: Change) -> (op: Op)
    ensures
        op@ == rule_op(rule, change),
{
    let flag = match change {
        Change::Append => "-A",
        Change::Delete => "-D",
    };
    let args = match rule {
        Rule::RedirectTcp => Args::new().text("-t").text("nat").text(flag).text("PREROUTING").text(
            "-s",
        ).with(Arg::NetworkCidr).text("-p").text("tcp").text("-j").text("REDIRECT").text(
            "--to-port",
        ).text(decimal_text(PROXY_PORT as u64).as_str()),
        Rule::DropOther => Args::new().text(flag).text("FORWARD").text("-s").with(
            Arg::NetworkCidr,
        ).text("!").text("-p").text("tcp").text("-j").text("DROP"),
    };
    assert(args@ =~= rule_args(rule, change));
    Op::Iptables { args }
}

/// The plan that installs the rules.
pub(crate) fn routing_install_plan() -> (plan: Plan)
    ensures
        plan@ == routing_install_steps(),
{
    Plan::new().must(
        Op::Sysctl { key: "net.ipv4.ip_forward".to_owned(), value: "1".to_owned() },
    ).must(change_rule(Rule::RedirectTcp, Change::Append)).must(
        change_rule(Rule::DropOther, Change::Append),
    )
}

/// The operations that remove the rules.
pub(crate) fn routing_remove_list() -> (ops: Ops)
    ensures
        ops@ == routing_remove_ops(),
{
    Ops::new().with(change_rule(Rule::RedirectTcp, Change::Delete)).with(
        change_rule(Rule::DropOther, Change::Delete),
    )
}

/// iptables rules for one VM's tap subnet.
#[derive(Debug)]
pub struct VmRouting {
    pub subnet: VmSubnet,
}

impl VmRouting {
    /// Installs iptables rules for a VM's subnet.
    pub fn install(subnet: &VmSubnet) -> (run: Run)
        requires
            has_network(*subnet),
        ensures
            run@ == fresh(routing_install_steps(), subnet_facts(*subnet)),
            run@.valid(),
    {
        let mut facts = Facts::none();
        facts.subnet = Some(*subnet);
        Run::new(routing_install_plan(), facts)
    }

    /// The rules of a subnet, once they have been installed.
    pub fn installed(subnet: VmSubnet) -> (routing: VmRouting)
        ensures
            routing.subnet == subnet,
    {
        VmRouting { subnet }
    }

    /// Removes the rules. That this may fail does not matter.
    pub fn remove(&self) -> (run: Run)
        requires
            has_network(self.subnet),
        ensures
            run@ == fresh(attempts(routing_remove_ops()), subnet_facts(self.subnet)),
            run@.valid(),
    {
        let mut facts = Facts::none();
        facts.subnet = Some(self.subnet);
        Run::new(Plan::new().attempt_all(&routing_remove_list()), facts)
    }
}

// ── Laws ─────────────────────────────────────────────────────────────────────

/// Whether arguments of `iptables` match packets that are TCP, or packets that are not: by
/// `-p tcp`, which a `!` before it turns round.
pub open spec fn matches_protocol(args: Seq<ArgView>, tcp: bool) -> bool {
    exists|i: int|
        #![trigger args[i]]
        0 <= i < args.len() - 1 && args[i] == ArgView::Text("-p"@) && args[i + 1] == ArgView::Text(
            "tcp"@,
        ) && (tcp <==> !(i > 0 && args[i - 1] == ArgView::Text("!"@)))
}

/// Whether arguments of `iptables` match the packets whose source is in the VM's subnet.
pub open spec fn matches_subnet(args: Seq<ArgView>) -> bool {
    exists|i: int|
        #![trigger args[i]]
        0 <= i < args.len() - 1 && args[i] == ArgView::Text("-s"@) && args[i + 1]
            == ArgView::NetworkCidr
}

/// Every packet from the VM's subnet meets exactly one of the two rules: TCP goes to the proxy
/// port, all else is dropped.
pub proof fn law_egress_is_covered(change: Change)
    ensures
        matches_subnet(rule_args(Rule::RedirectTcp, change)),
        matches_subnet(rule_args(Rule::DropOther, change)),
        matches_protocol(rule_args(Rule::RedirectTcp, change), true),
        !matches_protocol(rule_args(Rule::RedirectTcp, change), false),
        matches_protocol(rule_args(Rule::DropOther, change), false),
        !matches_protocol(rule_args(Rule::DropOther, change), true),
        rule_args(Rule::RedirectTcp, change).skip(8) == seq![
            ArgView::Text("-j"@),
            ArgView::Text("REDIRECT"@),
            ArgView::Text("--to-port"@),
            ArgView::Text(decimal(PROXY_PORT as nat)),
        ],
        rule_args(Rule::DropOther, change).skip(7) == seq![
            ArgView::Text("-j"@),
            ArgView::Text("DROP"@),
        ],
{
    let redirect = rule_args(Rule::RedirectTcp, change);
    let drop = rule_args(Rule::DropOther, change);
    reveal_strlit("-p");
    reveal_strlit("!");
    reveal_strlit("-s");
    reveal_strlit("-t");
    reveal_strlit("-A");
    reveal_strlit("-D");
    reveal_strlit("-j");
    reveal_strlit("nat");
    reveal_strlit("tcp");
    reveal_strlit("PREROUTING");
    reveal_strlit("FORWARD");
    reveal_strlit("REDIRECT");
    reveal_strlit("DROP");
    reveal_strlit("--to-port");
    assert("-p"@[1] == 'p' && "-s"@[1] == 's' && "-t"@[1] == 't' && "-j"@[1] == 'j');
    assert("-A"@[1] == 'A' && "-D"@[1] == 'D');
    assert("!"@.len() == 1 && "-p"@.len() == 2);
    assert(forall|i: int| 0 <= i < 11 && #[trigger] redirect[i] == ArgView::Text("-p"@) ==> i == 6);
    assert(forall|i: int| 0 <= i < 8 && #[trigger] drop[i] == ArgView::Text("-p"@) ==> i == 5);
    assert(redirect[4] == ArgView::Text("-s"@) && redirect[5] == ArgView::NetworkCidr);
    assert(drop[2] == ArgView::Text("-s"@) && drop[3] == ArgView::NetworkCidr);
    assert(redirect[6] == ArgView::Text("-p"@) && redirect[7] == ArgView::Text("tcp"@));
    assert(drop[5] == ArgView::Text("-p"@) && drop[6] == ArgView::Text("tcp"@));
    assert(redirect.skip(8) =~= seq![
        ArgView::Text("-j"@),
        ArgView::Text("REDIRECT"@),
        ArgView::Text("--to-port"@),
        ArgView::Text(decimal(PROXY_PORT as nat)),
    ]);
    assert(drop.skip(7) =~= seq![ArgView::Text("-j"@), ArgView::Text("DROP"@)]);
}

/// Removing deletes exactly the rules that installing appends: the same arguments in the same
/// order, but for the flag.
pub proof fn law_removal_undoes_installation(rule: Rule)
    ensures
        rule_args(rule, Change::Append).len() == rule_args(rule, Change::Delete).len(),
        forall|i: int|
            0 <= i < rule_args(rule, Change::Append).len() ==> {
                let appended = #[trigger] rule_args(rule, Change::Append)[i];
                let deleted = rule_args(rule, Change::Delete)[i];
                appended == deleted || (appended == ArgView::Text("-A"@) && deleted
                    == ArgView::Text("-D"@))
            },
        routing_install_steps().contains(must(rule_op(rule, Change::Append))),
        routing_remove_ops().contains(rule_op(rule, Change::Delete)),
        routing_install_steps().len() == routing_remove_ops().len() + 1,
{
    match rule {
        Rule::RedirectTcp => {
            assert(routing_install_steps()[1] == must(rule_op(rule, Change::Append)));
            assert(routing_remove_ops()[0] == rule_op(rule, Change::Delete));
        },
        Rule::DropOther => {
            assert(routing_install_steps()[2] == must(rule_op(rule, Change::Append)));
            assert(routing_remove_ops()[1] == rule_op(rule, Change::Delete));
        },
    }
}

/// Installing turns IP forwarding on, then appends a rule that redirects all TCP from the subnet to
/// port 3128 and one that drops all else from it, each of which must succeed. Removing deletes the
/// same two rules of the same subnet.
pub proof fn law_rule_commands(subnet: VmSubnet, facts: FactsView)
    requires
        facts.subnet == Some(subnet),
    ensures
        ({
            let net = network_cidr(subnet);
            let port = decimal(3128);
            let made = routing_install_steps();
            &&& asked(ops_of(made), facts) == seq![
                command("sysctl"@, seq!["-w"@, "net.ipv4.ip_forward"@ + "="@ + "1"@]),
                command(
                    "iptables"@,
                    seq![
                        "-t"@,
                        "nat"@,
                        "-A"@,
                        "PREROUTING"@,
                        "-s"@,
                        net,
                        "-p"@,
                        "tcp"@,
                        "-j"@,
                        "REDIRECT"@,
                        "--to-port"@,
                        port,
                    ],
                ),
                command(
                    "iptables"@,
                    seq!["-A"@, "FORWARD"@, "-s"@, net, "!"@, "-p"@, "tcp"@, "-j"@, "DROP"@],
                ),
            ]
            &&& forall|k: int|
                0 <= k < made.len() ==> (#[trigger] made[k]).required && made[k].release
                    == Seq::<OpView>::empty()
            &&& asked(routing_remove_ops(), facts) == seq![
                command(
                    "iptables"@,
                    seq![
                        "-t"@,
                        "nat"@,
                        "-D"@,
                        "PREROUTING"@,
                        "-s"@,
                        net,
                        "-p"@,
                        "tcp"@,
                        "-j"@,
                        "REDIRECT"@,
                        "--to-port"@,
                        port,
                    ],
                ),
                command(
                    "iptables"@,
                    seq!["-D"@, "FORWARD"@, "-s"@, net, "!"@, "-p"@, "tcp"@, "-j"@, "DROP"@],
                ),
            ]
            &&& subnet_facts(subnet).subnet == Some(subnet)
        }),
{
    let net = network_cidr(subnet);
    let port = decimal(3128);
    let redirect = |flag: Seq<char>|
        seq![
            "-t"@,
            "nat"@,
            flag,
            "PREROUTING"@,
            "-s"@,
            net,
            "-p"@,
            "tcp"@,
            "-j"@,
            "REDIRECT"@,
            "--to-port"@,
            port,
        ];
    let drop = |flag: Seq<char>|
        seq![flag, "FORWARD"@, "-s"@, net, "!"@, "-p"@, "tcp"@, "-j"@, "DROP"@];
    assert(args_text(rule_args(Rule::RedirectTcp, Change::Append), facts) =~= redirect("-A"@));
    assert(args_text(rule_args(Rule::RedirectTcp, Change::Delete), facts) =~= redirect("-D"@));
    assert(args_text(rule_args(Rule::DropOther, Change::Append), facts) =~= drop("-A"@));
    assert(args_text(rule_args(Rule::DropOther, Change::Delete), facts) =~= drop("-D"@));
    assert(asked(ops_of(routing_install_steps()), facts) =~= seq![
        command("sysctl"@, seq!["-w"@, "net.ipv4.ip_forward"@ + "="@ + "1"@]),
        command("iptables"@, redirect("-A"@)),
        command("iptables"@, drop("-A"@)),
    ]);
    assert(asked(routing_remove_ops(), facts) =~= seq![
        command("iptables"@, redirect("-D"@)),
        command("iptables"@, drop("-D"@)),
    ]);
}

} // verus!
