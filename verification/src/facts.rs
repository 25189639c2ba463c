//! What the host has told in the course of a plan, and the command-line arguments that depend
//! on it.

use crate::subnet::{dotted, has_network, host_cidr, network_cidr, VmSubnet};
use crate::text::{cat, cat3, decimal, decimal_text, texts};
use vstd::prelude::*;
use vstd::string::*;

verus! {

// ── Facts ────────────────────────────────────────────────────────────────────

/// What the host has told so far.
#[derive(Debug)]
pub struct Facts {
    /// The subnet that was allocated.
    pub subnet: Option<VmSubnet>,
    /// The loop device of the base image.
    pub base_loop: String,
    /// The loop device of the copy-on-write file.
    pub cow_loop: String,
    /// The size of the base image in sectors.
    pub sectors: u64,
    /// The size in MiB of the workspace image to pack.
    pub packed_mb: u64,
    /// When the latest wait (for the API socket, for the supervisor) began, in nanoseconds on the driver's clock.
    pub started_at: u64,
}

/// The content of [`Facts`].
pub struct FactsView {
    pub subnet: Option<VmSubnet>,
    pub base_loop: Seq<char>,
    pub cow_loop: Seq<char>,
    pub sectors: u64,
    pub packed_mb: u64,
    pub started_at: u64,
}

impl View for Facts {
    type V = FactsView;

    open spec fn view(&self) -> FactsView {
        FactsView {
            subnet: self.subnet,
            base_loop: self.base_loop@,
            cow_loop: self.cow_loop@,
            sectors: self.sectors,
            packed_mb: self.packed_mb,
            started_at: self.started_at,
        }
    }
}

impl FactsView {
    /// An allocated subnet has a network address.
    pub open spec fn sound(self) -> bool {
        match self.subnet {
            Some(subnet) => has_network(subnet),
            None => true,
        }
    }
}

/// Before the host has told anything.
pub open spec fn no_facts() -> FactsView {
    FactsView {
        subnet: None,
        base_loop: Seq::empty(),
        cow_loop: Seq::empty(),
        sectors: 0,
        packed_mb: 0,
        started_at: 0,
    }
}

impl Facts {
    /// Before the host has told anything.
    pub fn none() -> (facts: Facts)
        ensures
            facts@ == no_facts(),
    {
        Facts {
            subnet: None,
            base_loop: String::new(),
            cow_loop: String::new(),
            sectors: 0,
            packed_mb: 0,
            started_at: 0,
        }
    }

    /// Whether an allocated subnet has a network address.
    pub fn is_sound(&self) -> (sound: bool)
        ensures
            sound == self@.sound(),
    {
        match &self.subnet {
            Some(subnet) => subnet.has_network_ip(),
            None => true,
        }
    }
}

impl Clone for Facts {
    fn clone(&self) -> (res: Self)
        ensures
            res@ == self@,
    {
        Facts {
            subnet: self.subnet,
            base_loop: self.base_loop.clone(),
            cow_loop: self.cow_loop.clone(),
            sectors: self.sectors,
            packed_mb: self.packed_mb,
            started_at: self.started_at,
        }
    }
}

// ── Arguments ────────────────────────────────────────────────────────────────

/// A command-line argument: a text, or one that a fact decides.
#[derive(Debug)]
pub enum Arg {
    Text(String),
    /// The host address of the subnet, with its prefix length.
    HostCidr,
    /// The network address of the subnet, with its prefix length.
    NetworkCidr,
    /// The loop device of the base image.
    BaseLoop,
    /// The loop device of the copy-on-write file.
    CowLoop,
    /// The device-mapper table of the snapshot.
    SnapshotTable,
    /// The size of the workspace image to pack.
    PackedSize,
}

/// The content of an [`Arg`].
pub enum ArgView {
    Text(Seq<char>),
    HostCidr,
    NetworkCidr,
    BaseLoop,
    CowLoop,
    SnapshotTable,
    PackedSize,
}

impl View for Arg {
    type V = ArgView;

    open spec fn view(&self) -> ArgView {
        match self {
            Arg::Text(text) => ArgView::Text(text@),
            Arg::HostCidr => ArgView::HostCidr,
            Arg::NetworkCidr => ArgView::NetworkCidr,
            Arg::BaseLoop => ArgView::BaseLoop,
            Arg::CowLoop => ArgView::CowLoop,
            Arg::SnapshotTable => ArgView::SnapshotTable,
            Arg::PackedSize => ArgView::PackedSize,
        }
    }
}

impl Clone for Arg {
    fn clone(&self) -> (res: Self)
        ensures
            res@ == self@,
    {
        match self {
            Arg::Text(text) => Arg::Text(text.clone()),
            Arg::HostCidr => Arg::HostCidr,
            Arg::NetworkCidr => Arg::NetworkCidr,
            Arg::BaseLoop => Arg::BaseLoop,
            Arg::CowLoop => Arg::CowLoop,
            Arg::SnapshotTable => Arg::SnapshotTable,
            Arg::PackedSize => Arg::PackedSize,
        }
    }
}

/// The device-mapper table of a persistent snapshot of `base` over the whole of its `sectors`,
/// with its changes in `cow` in chunks of eight sectors (4 KiB).
pub open spec fn snapshot_table(sectors: u64, base: Seq<char>, cow: Seq<char>) -> Seq<char> {
    "0 "@ + decimal(sectors as nat) + " snapshot "@ + base + " "@ + cow + " P 8"@
}

/// A size as `truncate` takes it.
pub open spec fn size_arg(size_mb: u64) -> Seq<char> {
    decimal(size_mb as nat) + "M"@
}

/// A size as `truncate` takes it.
pub fn size_text(size_mb: u64) -> (text: String)
    ensures
        text@ == size_arg(size_mb),
{
    cat(decimal_text(size_mb).as_str(), "M")
}

/// What an argument reads, given the facts.
pub open spec fn arg_text(arg: ArgView, facts: FactsView) -> Seq<char> {
    match arg {
        ArgView::Text(text) => text,
        ArgView::HostCidr => match facts.subnet {
            Some(subnet) => host_cidr(subnet),
            None => Seq::empty(),
        },
        ArgView::NetworkCidr => match facts.subnet {
            Some(subnet) => network_cidr(subnet),
            None => Seq::empty(),
        },
        ArgView::BaseLoop => facts.base_loop,
        ArgView::CowLoop => facts.cow_loop,
        ArgView::SnapshotTable => snapshot_table(facts.sectors, facts.base_loop, facts.cow_loop),
        ArgView::PackedSize => size_arg(facts.packed_mb),
    }
}

impl Arg {
    /// What this argument reads, given the facts.
    pub fn resolve(&self, facts: &Facts) -> (text: String)
        requires
            facts@.sound(),
        ensures
            text@ == arg_text(self@, facts@),
    {
        match self {
            Arg::Text(text) => text.clone(),
            Arg::HostCidr => match &facts.subnet {
                Some(subnet) => subnet.host_cidr(),
                None => String::new(),
            },
            Arg::NetworkCidr => match &facts.subnet {
                Some(subnet) => subnet.network_cidr(),
                None => String::new(),
            },
            Arg::BaseLoop => facts.base_loop.clone(),
            Arg::CowLoop => facts.cow_loop.clone(),
            Arg::SnapshotTable => cat3(
                "0 ",
                decimal_text(facts.sectors).as_str(),
                " snapshot ",
            ).concat(facts.base_loop.as_str()).concat(" ").concat(facts.cow_loop.as_str()).concat(
                " P 8",
            ),
            Arg::PackedSize => size_text(facts.packed_mb),
        }
    }
}

/// A list of arguments.
#[derive(Debug)]
pub struct Args {
    items: Vec<Arg>,
}

impl View for Args {
    type V = Seq<ArgView>;

    closed spec fn view(&self) -> Seq<ArgView> {
        self.items@.map_values(|arg: Arg| arg@)
    }
}

/// What a list of arguments reads, given the facts.
pub open spec fn args_text(args: Seq<ArgView>, facts: FactsView) -> Seq<Seq<char>> {
    args.map_values(|arg: ArgView| arg_text(arg, facts))
}

impl Args {
    /// No arguments.
    pub fn new() -> (args: Args)
        ensures
            args@ == Seq::<ArgView>::empty(),
    {
        Args { items: Vec::new() }
    }

    /// These arguments and then `arg`.
    pub fn with(self, arg: Arg) -> (args: Args)
        ensures
            args@ == self@.push(arg@),
    {
        let mut items = self.items;
        items.push(arg);
        let args = Args { items };
        assert(args@ =~= self@.push(arg@));
        args
    }

    /// These arguments and then `text`.
    pub fn text(self, text: &str) -> (args: Args)
        ensures
            args@ == self@.push(ArgView::Text(text@)),
    {
        self.with(Arg::Text(text.to_owned()))
    }

    /// What these arguments read, given the facts.
    pub fn resolve(&self, facts: &Facts) -> (list: Vec<String>)
        requires
            facts@.sound(),
        ensures
            texts(list@) == args_text(self@, facts@),
    {
        let mut list: Vec<String> = Vec::new();
        let mut i: usize = 0;
        while i < self.items.len()
            invariant
                i <= self.items@.len(),
                facts@.sound(),
                list@.len() == i,
                forall|j: int|
                    0 <= j < i ==> (#[trigger] list@[j])@ == arg_text(self.items@[j]@, facts@),
            decreases self.items@.len() - i,
        {
            list.push(self.items[i].resolve(facts));
            i = i + 1;
        }
        assert(texts(list@) =~= args_text(self@, facts@));
        list
    }
}

impl Clone for Args {
    fn clone(&self) -> (res: Self)
        ensures
            res@ == self@,
    {
        let mut items: Vec<Arg> = Vec::new();
        let mut i: usize = 0;
        while i < self.items.len()
            invariant
                i <= self.items@.len(),
                items@.len() == i,
                forall|j: int| 0 <= j < i ==> (#[trigger] items@[j])@ == self.items@[j]@,
            decreases self.items@.len() - i,
        {
            items.push(self.items[i].clone());
            i = i + 1;
        }
        let args = Args { items };
        assert(args@ =~= self@);
        args
    }
}

// ── Laws ─────────────────────────────────────────────────────────────────────

/// At first nothing is known. What is known is what the fields hold.
pub proof fn law_facts_hold_what_was_told(facts: Facts)
    ensures
        no_facts().subnet is None,
        no_facts().base_loop.len() == 0 && no_facts().cow_loop.len() == 0,
        no_facts().sectors == 0 && no_facts().packed_mb == 0 && no_facts().started_at == 0,
        facts@.subnet == facts.subnet,
        facts@.base_loop == facts.base_loop@,
        facts@.cow_loop == facts.cow_loop@,
        facts@.sectors == facts.sectors,
        facts@.packed_mb == facts.packed_mb,
        facts@.started_at == facts.started_at,
{
}

/// What an argument reads: a text itself; the addresses of the subnet that was told; the loop
/// devices that were told.
pub proof fn law_arguments_read(text: Seq<char>, subnet: VmSubnet, facts: FactsView)
    requires
        facts.subnet == Some(subnet),
    ensures
        arg_text(ArgView::Text(text), facts) == text,
        arg_text(ArgView::HostCidr, facts) == dotted(subnet.host_ip) + "/"@ + decimal(
            subnet.prefix_len as nat,
        ),
        arg_text(ArgView::NetworkCidr, facts) == network_cidr(subnet),
        arg_text(ArgView::BaseLoop, facts) == facts.base_loop,
        arg_text(ArgView::CowLoop, facts) == facts.cow_loop,
{
}

} // verus!
