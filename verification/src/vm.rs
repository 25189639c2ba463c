//! Firecracker VM lifecycle: create, snapshot, restore, destroy.

use crate::api::{
    BootSource, Body, Call, Drive, FcApi, InstanceAction, MachineConfig, MemBackend, Method,
    NetworkInterface, RequestBody, SnapshotCreate, SnapshotLoad,
};
use crate::error::Failure;
use crate::event::EventView;
use crate::facts::{arg_text, ArgView, Facts, FactsView};
use crate::host::{asked, command, ActionView, LoopRole, Op, OpView, ProgramView};
use crate::id::{
    has_short, has_short_id, law_files_differ, law_names_differ, law_short_is_prefix, lemma_encode_concat,
    lemma_joined_differ, short, short_id,
};
use crate::overlay::{
    cow_path, cow_path_text, device_path, device_path_text, dm_name, dm_name_text, is_v4_text,
    law_overlay_commands, law_overlay_names, leave_mount_ops, loop_detached, mount_dir,
    overlay_destroy_list, overlay_destroy_ops, overlay_facts, overlay_of, snapshot_removed,
    sync_back_plan, sync_back_steps, tempfile_dir, OverlayView, WorkspaceOverlay,
};
use crate::plan::{attempt, attempts, guarded, must, must_or, Ops, Plan, StepView};
use crate::routing::{
    law_rule_commands, routing_install_plan, routing_install_steps, routing_remove_list,
    routing_remove_ops, rule_op, Change, Rule, VmRouting,
};
use crate::run::{
    after, answered, attaches, fresh, law_base_loop_is_kept, law_cow_loop_is_kept,
    law_failure_is_final, law_failure_releases, law_passed_means_succeeded, law_subnet_is_kept,
    law_success_does_all, law_trace_is_history, ops_of, succeeds, trace, Run,
};
use crate::subnet::{dotted, has_network, network_cidr, Ipv4Addr, VmSubnet};
use crate::tap::{
    law_tap_commands, law_tap_name, tap_create_plan, tap_create_steps, tap_delete,
    tap_destroy_list, tap_destroy_ops, tap_name, tap_name_text, TapDevice,
};
use crate::text::{
    cat, cat3, decimal, hex_pair, hex_pair_text, join_path, joined, law_hex_pair,
    lemma_digit_char_tells,
};
use vstd::prelude::*;
use vstd::string::*;
use vstd::utf8::*;

verus! {

/// The kernel command line of a fresh VM.
pub const BOOT_ARGS: &'static str =
    "console=ttyS0 reboot=k panic=1 pci=off ro root=/dev/vda init=/sbin/tini -- /opt/openshell/bin/openshell-sandbox";

// ── Names ────────────────────────────────────────────────────────────────────

/// The byte of `bytes` at position `i`, or 0 past its end.
pub open spec fn byte_or_zero(bytes: Seq<u8>, i: int) -> u8 {
    if i < bytes.len() {
        bytes[i]
    } else {
        0
    }
}

/// The MAC address of a sandbox's guest: 02 and the first five bytes of the id.
pub open spec fn mac(sandbox_id: Seq<char>) -> Seq<char> {
    let b = encode_utf8(sandbox_id);
    "02:"@ + hex_pair(byte_or_zero(b, 0)) + ":"@ + hex_pair(byte_or_zero(b, 1)) + ":"@
        + hex_pair(byte_or_zero(b, 2)) + ":"@ + hex_pair(byte_or_zero(b, 3)) + ":"@ + hex_pair(
        byte_or_zero(b, 4),
    )
}

fn hex_of_byte(bytes: &[u8], i: usize) -> (text: String)
    ensures
        text@ == hex_pair(byte_or_zero(bytes@, i as int)),
{
    if i < bytes.len() {
        hex_pair_text(bytes[i])
    } else {
        hex_pair_text(0)
    }
}

/// Derive a deterministic MAC address from the sandbox ID.
pub fn derive_mac(sandbox_id: &str) -> (text: String)
    ensures
        text@ == mac(sandbox_id@),
{
    let b = sandbox_id.as_bytes();
    cat("02:", hex_of_byte(b, 0).as_str()).concat(":").concat(
        hex_of_byte(b, 1).as_str(),
    ).concat(":").concat(hex_of_byte(b, 2).as_str()).concat(":").concat(
        hex_of_byte(b, 3).as_str(),
    ).concat(":").concat(hex_of_byte(b, 4).as_str())
}

/// The path of a sandbox's API socket.
pub open spec fn socket_path(temp_dir: Seq<char>, sandbox_id: Seq<char>) -> Seq<char> {
    joined(temp_dir, "fc-"@ + short(sandbox_id) + ".sock"@)
}

/// The path of a sandbox's API socket.
pub fn socket_path_text(temp_dir: &str, sandbox_id: &str) -> (path: String)
    requires
        has_short(sandbox_id@),
    ensures
        path@ == socket_path(temp_dir@, sandbox_id@),
{
    join_path(temp_dir, cat3("fc-", short_id(sandbox_id), ".sock").as_str())
}

/// What a VM holds on the host.
#[derive(Debug)]
pub struct Resources {
    /// Its tap device.
    pub tap: String,
    /// Its workspace's snapshot device, by name and by path.
    pub dm: String,
    pub device: String,
    /// Its workspace's COW file.
    pub cow: String,
    /// Its API socket.
    pub socket: String,
}

/// The content of [`Resources`].
pub struct ResourcesView {
    pub tap: Seq<char>,
    pub dm: Seq<char>,
    pub device: Seq<char>,
    pub cow: Seq<char>,
    pub socket: Seq<char>,
}

impl View for Resources {
    type V = ResourcesView;

    open spec fn view(&self) -> ResourcesView {
        ResourcesView {
            tap: self.tap@,
            dm: self.dm@,
            device: self.device@,
            cow: self.cow@,
            socket: self.socket@,
        }
    }
}

/// What the VM of a sandbox holds on the host, with the given overlay.
pub open spec fn resources_with(
    sandbox_id: Seq<char>,
    overlay: OverlayView,
    temp_dir: Seq<char>,
) -> ResourcesView {
    ResourcesView {
        tap: tap_name(sandbox_id),
        dm: overlay.dm_name,
        device: overlay.device_path,
        cow: overlay.cow_path,
        socket: socket_path(temp_dir, sandbox_id),
    }
}

/// What the VM of a sandbox holds on the host, with the sandbox's own overlay.
pub open spec fn resources_of(
    sandbox_id: Seq<char>,
    overlay_dir: Seq<char>,
    temp_dir: Seq<char>,
) -> ResourcesView {
    ResourcesView {
        tap: tap_name(sandbox_id),
        dm: dm_name(sandbox_id),
        device: device_path(dm_name(sandbox_id)),
        cow: cow_path(overlay_dir, sandbox_id),
        socket: socket_path(temp_dir, sandbox_id),
    }
}

impl Resources {
    /// What the VM of a sandbox holds on the host, with the given overlay.
    pub fn with(sandbox_id: &str, overlay: &WorkspaceOverlay, temp_dir: &str) -> (res: Resources)
        requires
            has_short(sandbox_id@),
        ensures
            res@ == resources_with(sandbox_id@, overlay@, temp_dir@),
    {
        Resources {
            tap: tap_name_text(sandbox_id),
            dm: overlay.dm_name.clone(),
            device: overlay.device_path.clone(),
            cow: overlay.cow_path.clone(),
            socket: socket_path_text(temp_dir, sandbox_id),
        }
    }

    /// What the VM of a sandbox holds on the host, with the sandbox's own overlay.
    pub fn of(sandbox_id: &str, overlay_dir: &str, temp_dir: &str) -> (res: Resources)
        requires
            has_short(sandbox_id@),
        ensures
            res@ == resources_of(sandbox_id@, overlay_dir@, temp_dir@),
    {
        let dm = dm_name_text(sandbox_id);
        Resources {
            tap: tap_name_text(sandbox_id),
            device: device_path_text(dm.as_str()),
            dm,
            cow: cow_path_text(overlay_dir, sandbox_id),
            socket: socket_path_text(temp_dir, sandbox_id),
        }
    }
}

// ── API calls ────────────────────────────────────────────────────────────────

/// A PUT to the API.
pub open spec fn put(socket: Seq<char>, path: Seq<char>, body: Body) -> StepView {
    must(OpView::Call(Call { socket_path: socket, method: Method::Put, path, body }))
}

/// A PATCH to the API.
pub open spec fn patch(socket: Seq<char>, path: Seq<char>, body: Body) -> StepView {
    must(OpView::Call(Call { socket_path: socket, method: Method::Patch, path, body }))
}

/// The writable workspace drive.
pub open spec fn workspace_drive(device: Seq<char>) -> Body {
    Body::Drive {
        drive_id: "workspace"@,
        path_on_host: device,
        is_root_device: false,
        is_read_only: false,
    }
}

/// The VM's network interface.
pub open spec fn tap_interface(tap: Seq<char>, sandbox_id: Seq<char>) -> Body {
    Body::NetworkInterface { iface_id: tap, host_dev_name: tap, guest_mac: mac(sandbox_id) }
}

/// The calls that restore a VM from a snapshot: the snapshot is loaded without being resumed,
/// the workspace and the tap are attached, and only then the VM resumes.
pub open spec fn restore_calls(
    res: ResourcesView,
    sandbox_id: Seq<char>,
    snapshot_path: Seq<char>,
    mem_path: Seq<char>,
) -> Seq<StepView> {
    seq![
        put(
            res.socket,
            "/snapshot/load"@,
            Body::SnapshotLoad {
                snapshot_path,
                backend_type: "File"@,
                backend_path: mem_path,
                enable_diff_snapshots: false,
                resume_vm: false,
            },
        ),
        patch(res.socket, "/drives/workspace"@, workspace_drive(res.device)),
        put(
            res.socket,
            "/network-interfaces/"@ + res.tap,
            tap_interface(res.tap, sandbox_id),
        ),
        put(res.socket, "/actions"@, Body::InstanceAction { action_type: "ResumeVm"@ }),
    ]
}

/// The calls that boot a fresh VM: machine, kernel, the read-only root drive, the workspace and
/// the tap are configured, and only then the instance starts.
pub open spec fn boot_calls(
    res: ResourcesView,
    sandbox_id: Seq<char>,
    vcpu_count: u32,
    mem_mib: u32,
    kernel_path: Seq<char>,
    rootfs_path: Seq<char>,
) -> Seq<StepView> {
    seq![
        put(
            res.socket,
            "/machine-config"@,
            Body::MachineConfig { vcpu_count, mem_size_mib: mem_mib },
        ),
        put(
            res.socket,
            "/boot-source"@,
            Body::BootSource { kernel_image_path: kernel_path, boot_args: BOOT_ARGS@ },
        ),
        put(
            res.socket,
            "/drives/rootfs"@,
            Body::Drive {
                drive_id: "rootfs"@,
                path_on_host: rootfs_path,
                is_root_device: true,
                is_read_only: true,
            },
        ),
        put(res.socket, "/drives/workspace"@, workspace_drive(res.device)),
        put(
            res.socket,
            "/network-interfaces/"@ + res.tap,
            tap_interface(res.tap, sandbox_id),
        ),
        put(res.socket, "/actions"@, Body::InstanceAction { action_type: "InstanceStart"@ }),
    ]
}

/// The calls that snapshot a VM: it is paused, and then its state written.
pub open spec fn snapshot_calls(
    socket: Seq<char>,
    snapshot_path: Seq<char>,
    mem_path: Seq<char>,
) -> Seq<StepView> {
    seq![
        put(socket, "/actions"@, Body::InstanceAction { action_type: "PauseVm"@ }),
        put(
            socket,
            "/snapshot/create"@,
            Body::SnapshotCreate {
                snapshot_type: "Full"@,
                snapshot_path,
                mem_file_path: mem_path,
            },
        ),
    ]
}

fn workspace_drive_body(device: &str) -> (body: RequestBody)
    ensures
        body@ == workspace_drive(device@),
{
    RequestBody::Drive(
        Drive {
            drive_id: "workspace".to_owned(),
            path_on_host: device.to_owned(),
            is_root_device: false,
            is_read_only: false,
        },
    )
}

fn tap_interface_body(tap: &str, sandbox_id: &str) -> (body: RequestBody)
    ensures
        body@ == tap_interface(tap@, sandbox_id@),
{
    RequestBody::NetworkInterface(
        NetworkInterface {
            iface_id: tap.to_owned(),
            host_dev_name: tap.to_owned(),
            guest_mac: derive_mac(sandbox_id),
        },
    )
}

fn instance_action(action_type: &str) -> (body: RequestBody)
    ensures
        body@ == (Body::InstanceAction { action_type: action_type@ }),
{
    RequestBody::InstanceAction(InstanceAction { action_type: action_type.to_owned() })
}

/// The plan of the calls that restore a VM.
pub(crate) fn restore_plan(
    res: &Resources,
    sandbox_id: &str,
    snapshot_path: &str,
    mem_path: &str,
) -> (plan: Plan)
    ensures
        plan@ == restore_calls(res@, sandbox_id@, snapshot_path@, mem_path@),
{
    let api = FcApi::new(res.socket.as_str());
    let load = RequestBody::SnapshotLoad(
        SnapshotLoad {
            snapshot_path: snapshot_path.to_owned(),
            mem_backend: MemBackend {
                backend_type: "File".to_owned(),
                backend_path: mem_path.to_owned(),
            },
            enable_diff_snapshots: false,
            resume_vm: false,
        },
    );
    let drive = workspace_drive_body(res.device.as_str());
    let interface = tap_interface_body(res.tap.as_str(), sandbox_id);
    let interface_path = cat("/network-interfaces/", res.tap.as_str());
    Plan::new().must(Op::Call(api.put("/snapshot/load", load))).must(
        Op::Call(api.patch("/drives/workspace", drive)),
    ).must(Op::Call(api.put(interface_path.as_str(), interface))).must(
        Op::Call(api.put("/actions", instance_action("ResumeVm"))),
    )
}

/// The plan of the calls that boot a fresh VM.
pub(crate) fn boot_plan(
    res: &Resources,
    sandbox_id: &str,
    vcpu_count: u32,
    mem_mib: u32,
    kernel_path: &str,
    rootfs_path: &str,
) -> (plan: Plan)
    ensures
        plan@ == boot_calls(res@, sandbox_id@, vcpu_count, mem_mib, kernel_path@, rootfs_path@),
{
    let api = FcApi::new(res.socket.as_str());
    let machine = RequestBody::MachineConfig(MachineConfig { vcpu_count, mem_size_mib: mem_mib });
    let boot = RequestBody::BootSource(
        BootSource {
            kernel_image_path: kernel_path.to_owned(),
            boot_args: BOOT_ARGS.to_owned(),
        },
    );
    let rootfs = RequestBody::Drive(
        Drive {
            drive_id: "rootfs".to_owned(),
            path_on_host: rootfs_path.to_owned(),
            is_root_device: true,
            is_read_only: true,
        },
    );
    let drive = workspace_drive_body(res.device.as_str());
    let interface = tap_interface_body(res.tap.as_str(), sandbox_id);
    let interface_path = cat("/network-interfaces/", res.tap.as_str());
    Plan::new().must(Op::Call(api.put("/machine-config", machine))).must(
        Op::Call(api.put("/boot-source", boot)),
    ).must(Op::Call(api.put("/drives/rootfs", rootfs))).must(
        Op::Call(api.put("/drives/workspace", drive)),
    ).must(Op::Call(api.put(interface_path.as_str(), interface))).must(
        Op::Call(api.put("/actions", instance_action("InstanceStart"))),
    )
}

/// The plan of the calls that snapshot a VM.
pub(crate) fn snapshot_plan(socket: &str, snapshot_path: &str, mem_path: &str) -> (plan: Plan)
    ensures
        plan@ == snapshot_calls(socket@, snapshot_path@, mem_path@),
{
    let api = FcApi::new(socket);
    let create = RequestBody::SnapshotCreate(
        SnapshotCreate {
            snapshot_type: "Full".to_owned(),
            snapshot_path: snapshot_path.to_owned(),
            mem_file_path: mem_path.to_owned(),
        },
    );
    Plan::new().must(Op::Call(api.put("/actions", instance_action("PauseVm")))).must(
        Op::Call(api.put("/snapshot/create", create)),
    )
}

// ── Lifecycle ────────────────────────────────────────────────────────────────

/// Starts the firecracker process and waits for its API. A stale socket is removed first.
pub open spec fn start_steps(binary: Seq<char>, socket: Seq<char>) -> Seq<StepView> {
    seq![
        must(OpView::RequireBinary { path: binary }),
        attempt(OpView::RemoveFile { path: socket }),
        must(OpView::Spawn { binary, socket_path: socket }),
        must(OpView::StartClock),
        must(OpView::AwaitSocket { path: socket }),
    ]
}

/// Launches a VM: KVM is required, then the tap made, the rules installed, the process started
/// and the API called. What was made is released in reverse when a later step fails, and the
/// overlay in any case.
pub open spec fn launch_steps(
    res: ResourcesView,
    binary: Seq<char>,
    calls: Seq<StepView>,
) -> Seq<StepView> {
    guarded(
        seq![must(OpView::RequireKvm)] + tap_create_steps(res.tap) + guarded(
            routing_install_steps() + guarded(
                start_steps(binary, res.socket) + calls,
                routing_remove_ops(),
            ),
            tap_destroy_ops(res.tap),
        ),
        overlay_destroy_ops(res.dm, res.cow),
    )
}

/// The launch for an id that cannot name host resources: KVM is required, and the overlay released
/// in any case. No VM comes of it.
pub open spec fn unnamed_launch_steps(overlay: OverlayView) -> Seq<StepView> {
    let release = overlay_destroy_ops(overlay.dm_name, overlay.cow_path);
    seq![must_or(OpView::RequireKvm, release)] + attempts(release)
}

/// Launches the VM of a sandbox from a snapshot.
pub open spec fn from_snapshot_steps(
    sandbox_id: Seq<char>,
    snapshot_path: Seq<char>,
    mem_path: Seq<char>,
    overlay: OverlayView,
    binary: Seq<char>,
    temp_dir: Seq<char>,
) -> Seq<StepView> {
    let res = resources_with(sandbox_id, overlay, temp_dir);
    if has_short(sandbox_id) {
        launch_steps(res, binary, restore_calls(res, sandbox_id, snapshot_path, mem_path))
    } else {
        unnamed_launch_steps(overlay)
    }
}

/// Releases what a running VM holds: the process, the socket, the tap, the overlay, the rules.
pub open spec fn vm_release_ops(res: ResourcesView) -> Seq<OpView> {
    seq![OpView::StartKill, OpView::RemoveFile { path: res.socket }] + tap_destroy_ops(res.tap)
        + overlay_destroy_ops(res.dm, res.cow) + routing_remove_ops()
}

/// Destroys a running VM: the process is killed, the workspace synced back where that is wanted
/// (a directory and a mount point), and all that the VM holds released. When the sync fails,
/// all is released too, and likewise when the run is abandoned on the way.
pub open spec fn destroy_steps(
    res: ResourcesView,
    sync: Option<(Seq<char>, Seq<char>)>,
) -> Seq<StepView> {
    guarded(
        seq![attempt(OpView::Kill)] + match sync {
            Some((dest, mount_dir)) => sync_back_steps(res.device, dest, mount_dir),
            None => Seq::empty(),
        } + seq![attempt(OpView::RemoveFile { path: res.socket })],
        vm_release_ops(res),
    ) + attempts(vm_release_ops(res))
}

/// The plan that launches a VM.
pub(crate) fn launch_plan(res: &Resources, binary: &str, calls: Plan) -> (plan: Plan)
    ensures
        plan@ == launch_steps(res@, binary@, calls@),
{
    let start = Plan::new().must(Op::RequireBinary { path: binary.to_owned() }).attempt(
        Op::RemoveFile { path: res.socket.clone() },
    ).must(Op::Spawn { binary: binary.to_owned(), socket_path: res.socket.clone() }).must(
        Op::StartClock,
    ).must(Op::AwaitSocket { path: res.socket.clone() });
    assert(start@ =~= start_steps(binary@, res.socket@));
    let routed = routing_install_plan().followed_by(
        start.followed_by(calls).guarded(&routing_remove_list()),
    );
    let kvm = Plan::new().must(Op::RequireKvm);
    assert(kvm@ =~= seq![must(OpView::RequireKvm)]);
    kvm.followed_by(tap_create_plan(res.tap.as_str())).followed_by(
        routed.guarded(&tap_destroy_list(res.tap.as_str())),
    ).guarded(&overlay_destroy_list(res.dm.as_str(), res.cow.as_str()))
}

/// The operations that release what a running VM holds.
pub(crate) fn vm_release_list(res: &Resources) -> (ops: Ops)
    ensures
        ops@ == vm_release_ops(res@),
{
    let first = Ops::new().with(Op::StartKill).with(Op::RemoveFile { path: res.socket.clone() });
    assert(first@ =~= seq![OpView::StartKill, OpView::RemoveFile { path: res.socket@ }]);
    first.followed_by(&tap_destroy_list(res.tap.as_str())).followed_by(
        &overlay_destroy_list(res.dm.as_str(), res.cow.as_str()),
    ).followed_by(&routing_remove_list())
}

/// The plan that destroys a running VM. `sync` is a directory and a mount point.
pub(crate) fn destroy_plan(res: &Resources, sync: Option<(&str, &str)>) -> (plan: Plan)
    ensures
        plan@ == destroy_steps(
            res@,
            match sync {
                Some((dest, mount_dir)) => Some((dest@, mount_dir@)),
                None => None,
            },
        ),
{
    let release = vm_release_list(res);
    let kill = Plan::new().attempt(Op::Kill);
    assert(kill@ =~= seq![attempt(OpView::Kill)]);
    let synced = match sync {
        Some((dest, mount_dir)) => sync_back_plan(res.device.as_str(), dest, mount_dir),
        None => Plan::new(),
    };
    let socket = Plan::new().attempt(Op::RemoveFile { path: res.socket.clone() });
    assert(socket@ =~= seq![attempt(OpView::RemoveFile { path: res.socket@ })]);
    kill.followed_by(synced).followed_by(socket).guarded(&release).attempt_all(&release)
}

/// The plan of the launch for an id that cannot name host resources.
fn unnamed_launch_plan(overlay: &WorkspaceOverlay) -> (plan: Plan)
    ensures
        plan@ == unnamed_launch_steps(overlay@),
{
    let release = overlay_destroy_list(overlay.dm_name.as_str(), overlay.cow_path.as_str());
    let again = overlay_destroy_list(overlay.dm_name.as_str(), overlay.cow_path.as_str());
    let kvm = Plan::new().must_or(Op::RequireKvm, release);
    assert(kvm@ =~= seq![must_or(OpView::RequireKvm, again@)]);
    kvm.attempt_all(&again)
}

/// What a fresh VM is booted with.
#[derive(Debug)]
pub struct FreshBootConfig {
    pub sandbox_id: String,
    pub vcpu_count: u32,
    pub mem_mib: u32,
    pub kernel_path: String,
    pub rootfs_path: String,
    pub workspace_overlay: WorkspaceOverlay,
}

/// A running Firecracker microVM sandbox.
#[derive(Debug)]
pub struct FirecrackerVm {
    pub sandbox_id: String,
    pub tap: TapDevice,
    pub overlay: WorkspaceOverlay,
    pub routing: VmRouting,
    pub socket_path: String,
}

/// What is known of a running VM.
pub open spec fn vm_facts(subnet: VmSubnet, overlay: OverlayView) -> FactsView {
    FactsView { subnet: Some(subnet), ..overlay_facts(overlay) }
}

/// Boots the VM of a sandbox fresh.
pub open spec fn boot_fresh_steps(
    config: FreshBootConfig,
    binary: Seq<char>,
    temp_dir: Seq<char>,
) -> Seq<StepView> {
    let id = config.sandbox_id@;
    let res = resources_with(id, config.workspace_overlay@, temp_dir);
    if has_short(id) {
        launch_steps(
            res,
            binary,
            boot_calls(
                res,
                id,
                config.vcpu_count,
                config.mem_mib,
                config.kernel_path@,
                config.rootfs_path@,
            ),
        )
    } else {
        unnamed_launch_steps(config.workspace_overlay@)
    }
}

impl FirecrackerVm {
    /// The rules are those of the tap's subnet, which has a network address.
    pub open spec fn valid(self) -> bool {
        &&& self.routing.subnet == self.tap.subnet
        &&& has_network(self.tap.subnet)
    }

    /// Whether the rules are those of the tap's subnet, which has a network address.
    pub fn is_valid(&self) -> (valid: bool)
        ensures
            valid == self.valid(),
    {
        self.routing.subnet == self.tap.subnet && self.tap.subnet.has_network_ip()
    }

    /// What this VM holds on the host.
    pub open spec fn holds(self) -> ResourcesView {
        ResourcesView {
            tap: self.tap.name@,
            dm: self.overlay@.dm_name,
            device: self.overlay@.device_path,
            cow: self.overlay@.cow_path,
            socket: self.socket_path@,
        }
    }

    fn resources(&self) -> (res: Resources)
        ensures
            res@ == self.holds(),
    {
        Resources {
            tap: self.tap.name.clone(),
            dm: self.overlay.dm_name.clone(),
            device: self.overlay.device_path.clone(),
            cow: self.overlay.cow_path.clone(),
            socket: self.socket_path.clone(),
        }
    }

    fn facts(&self) -> (facts: Facts)
        ensures
            facts@ == vm_facts(self.tap.subnet, self.overlay@),
    {
        let mut facts = self.overlay.facts();
        facts.subnet = Some(self.tap.subnet);
        facts
    }

    /// Launches a new VM from a base snapshot.
    ///
    /// `snapshot_path` and `mem_path` point to the pre-built base snapshot.
    /// The workspace overlay is attached after restore.
    ///
    /// Where the first eight bytes of `sandbox_id` are no whole characters, the run requires KVM,
    /// releases the overlay, and there is no VM to be had.
    pub fn from_snapshot(
        sandbox_id: &str,
        snapshot_path: &str,
        mem_path: &str,
        workspace_overlay: &WorkspaceOverlay,
        fc_binary: &str,
        _overlay_dir: &str,
        temp_dir: &str,
    ) -> (run: Run)
        ensures
            run@ == fresh(
                from_snapshot_steps(
                    sandbox_id@,
                    snapshot_path@,
                    mem_path@,
                    workspace_overlay@,
                    fc_binary@,
                    temp_dir@,
                ),
                overlay_facts(workspace_overlay@),
            ),
            run@.valid(),
    {
        if !has_short_id(sandbox_id) {
            return Run::new(unnamed_launch_plan(workspace_overlay), workspace_overlay.facts());
        }
        let res = Resources::with(sandbox_id, workspace_overlay, temp_dir);
        let calls = restore_plan(&res, sandbox_id, snapshot_path, mem_path);
        Run::new(launch_plan(&res, fc_binary, calls), workspace_overlay.facts())
    }

    /// Boots a fresh VM (no snapshot). Used to build the base snapshot.
    ///
    /// Where the first eight bytes of the sandbox id are no whole characters, the run requires
    /// KVM, releases the overlay, and there is no VM to be had.
    pub fn boot_fresh(config: &FreshBootConfig, fc_binary: &str, temp_dir: &str) -> (run: Run)
        ensures
            run@ == fresh(
                boot_fresh_steps(*config, fc_binary@, temp_dir@),
                overlay_facts(config.workspace_overlay@),
            ),
            run@.valid(),
    {
        if !has_short_id(config.sandbox_id.as_str()) {
            return Run::new(
                unnamed_launch_plan(&config.workspace_overlay),
                config.workspace_overlay.facts(),
            );
        }
        let id = config.sandbox_id.as_str();
        let res = Resources::with(id, &config.workspace_overlay, temp_dir);
        let calls = boot_plan(
            &res,
            id,
            config.vcpu_count,
            config.mem_mib,
            config.kernel_path.as_str(),
            config.rootfs_path.as_str(),
        );
        Run::new(launch_plan(&res, fc_binary, calls), config.workspace_overlay.facts())
    }

    /// The VM of a sandbox, once it has been launched with `subnet`.
    pub fn launched(
        sandbox_id: &str,
        overlay: WorkspaceOverlay,
        subnet: VmSubnet,
        temp_dir: &str,
    ) -> (vm: FirecrackerVm)
        requires
            has_short(sandbox_id@),
            has_network(subnet),
        ensures
            vm.valid(),
            vm.sandbox_id@ == sandbox_id@,
            vm.tap.subnet == subnet,
            vm.overlay == overlay,
            vm.holds() == resources_with(sandbox_id@, overlay@, temp_dir@),
    {
        FirecrackerVm {
            sandbox_id: sandbox_id.to_owned(),
            tap: TapDevice::created(sandbox_id, subnet),
            overlay,
            routing: VmRouting::installed(subnet),
            socket_path: socket_path_text(temp_dir, sandbox_id),
        }
    }

    /// Snapshots this VM's state to disk. The VM is paused during the snapshot.
    pub fn create_snapshot(&self, snapshot_path: &str, mem_path: &str) -> (run: Run)
        requires
            self.valid(),
        ensures
            run@ == fresh(
                snapshot_calls(self.socket_path@, snapshot_path@, mem_path@),
                vm_facts(self.tap.subnet, self.overlay@),
            ),
            run@.valid(),
    {
        Run::new(
            snapshot_plan(self.socket_path.as_str(), snapshot_path, mem_path),
            self.facts(),
        )
    }

    /// Syncs workspace changes back to the host, where `sync_dest` is given, by way of a mount
    /// point at `mount_dir`, and destroys the VM.
    pub fn destroy_at(&self, sync_dest: Option<&str>, mount_dir: &str) -> (run: Run)
        requires
            self.valid(),
        ensures
            run@ == fresh(
                destroy_steps(
                    self.holds(),
                    match sync_dest {
                        Some(dest) => Some((dest@, mount_dir@)),
                        None => None,
                    },
                ),
                vm_facts(self.tap.subnet, self.overlay@),
            ),
            run@.valid(),
    {
        let sync = match sync_dest {
            Some(dest) => Some((dest, mount_dir)),
            None => None,
        };
        Run::new(destroy_plan(&self.resources(), sync), self.facts())
    }

    /// Syncs workspace changes back to the host, where `sync_dest` is given, and destroys the
    /// VM.
    pub fn destroy(&self, sync_dest: Option<&str>, temp_dir: &str) -> (run: Run)
        requires
            self.valid(),
        ensures
            match sync_dest {
                Some(dest) => exists|uuid: Seq<char>|
                    #[trigger] is_v4_text(uuid) && run@ == fresh(
                        destroy_steps(
                            self.holds(),
                            Some((dest@, mount_dir(temp_dir@, uuid))),
                        ),
                        vm_facts(self.tap.subnet, self.overlay@),
                    ),
                None => run@ == fresh(
                    destroy_steps(self.holds(), None),
                    vm_facts(self.tap.subnet, self.overlay@),
                ),
            },
            run@.valid(),
    {
        match sync_dest {
            Some(dest) => {
                let dir = tempfile_dir(temp_dir);
                self.destroy_at(Some(dest), dir.as_str())
            },
            None => self.destroy_at(None, temp_dir),
        }
    }

    /// Releases all that this VM holds, when it was not destroyed. That some of it may fail
    /// does not matter.
    pub fn release(&self) -> (run: Run)
        requires
            self.valid(),
        ensures
            run@ == fresh(
                attempts(vm_release_ops(self.holds())),
                vm_facts(self.tap.subnet, self.overlay@),
            ),
            run@.valid(),
    {
        Run::new(Plan::new().attempt_all(&vm_release_list(&self.resources())), self.facts())
    }

    /// The guest's address.
    pub fn guest_ip(&self) -> (ip: Ipv4Addr)
        ensures
            ip == self.tap.subnet.guest_ip,
    {
        self.tap.subnet.guest_ip
    }
}

// ── Laws ─────────────────────────────────────────────────────────────────────

/// The name of a tap device takes 15 bytes, the most that Linux allows.
pub proof fn law_tap_name_fits(sandbox_id: Seq<char>)
    requires
        has_short(sandbox_id),
    ensures
        encode_utf8(tap_name(sandbox_id)).len() == 15,
{
    reveal_strlit("fc-tap-");
    law_short_is_prefix(sandbox_id);
    lemma_encode_concat("fc-tap-"@, short(sandbox_id));
    is_ascii_chars_encode_utf8("fc-tap-"@);
}

/// Two sandboxes whose ids differ in their first eight bytes share no resource on the host.
pub proof fn law_resources_differ(
    a: Seq<char>,
    b: Seq<char>,
    overlay_dir: Seq<char>,
    temp_dir: Seq<char>,
)
    requires
        has_short(a),
        has_short(b),
        short(a) != short(b),
    ensures
        ({
            let p = resources_of(a, overlay_dir, temp_dir);
            let q = resources_of(b, overlay_dir, temp_dir);
            p.tap != q.tap && p.dm != q.dm && p.device != q.device && p.cow != q.cow && p.socket
                != q.socket
        }),
{
    let none = Seq::<char>::empty();
    let sa = short(a);
    let sb = short(b);
    law_names_differ("fc-tap-"@, a, b, none);
    assert("fc-tap-"@ + sa + none =~= tap_name(a));
    assert("fc-tap-"@ + sb + none =~= tap_name(b));
    law_names_differ("fc-ws-"@, a, b, none);
    assert("fc-ws-"@ + sa + none =~= dm_name(a));
    assert("fc-ws-"@ + sb + none =~= dm_name(b));
    let mapper = "/dev/mapper/"@;
    assert(dm_name(a) =~= (mapper + dm_name(a)).skip(mapper.len() as int));
    assert(dm_name(b) =~= (mapper + dm_name(b)).skip(mapper.len() as int));
    law_files_differ(overlay_dir, a, b, ".cow"@);
    law_names_differ("fc-"@, a, b, ".sock"@);
    law_short_is_prefix(a);
    law_short_is_prefix(b);
    lemma_encode_concat("fc-"@, sa);
    lemma_encode_concat("fc-"@, sb);
    lemma_encode_concat("fc-"@ + sa, ".sock"@);
    lemma_encode_concat("fc-"@ + sb, ".sock"@);
    lemma_joined_differ(temp_dir, "fc-"@ + sa + ".sock"@, "fc-"@ + sb + ".sock"@);
}

/// The MAC address is 17 characters that start with `02:` (a locally administered unicast
/// address), and two ids get the same one exactly when their first five bytes are the same,
/// where a missing byte counts as zero.
pub proof fn law_mac_tells_five_bytes(a: Seq<char>, b: Seq<char>)
    ensures
        mac(a).len() == 17,
        mac(a).take(3) == "02:"@,
        mac(a) == mac(b) <==> forall|i: int|
            0 <= i < 5 ==> #[trigger] byte_or_zero(encode_utf8(a), i) == byte_or_zero(
                encode_utf8(b),
                i,
            ),
{
    reveal_strlit("02:");
    reveal_strlit(":");
    assert(mac(a).take(3) =~= "02:"@);
    let x = encode_utf8(a);
    let y = encode_utf8(b);
    if mac(a) == mac(b) {
        assert forall|i: int| 0 <= i < 5 implies #[trigger] byte_or_zero(x, i) == byte_or_zero(
            y,
            i,
        ) by {
            let p = byte_or_zero(x, i);
            let q = byte_or_zero(y, i);
            assert(mac(a)[3 + 3 * i] == hex_pair(p)[0] && mac(a)[4 + 3 * i] == hex_pair(p)[1]);
            assert(mac(b)[3 + 3 * i] == hex_pair(q)[0] && mac(b)[4 + 3 * i] == hex_pair(q)[1]);
            lemma_digit_char_tells(p as int / 16, q as int / 16);
            lemma_digit_char_tells(p as int % 16, q as int % 16);
        }
    }
    if forall|i: int|
        0 <= i < 5 ==> #[trigger] byte_or_zero(x, i) == byte_or_zero(y, i) {
        assert(byte_or_zero(x, 0) == byte_or_zero(y, 0));
        assert(byte_or_zero(x, 1) == byte_or_zero(y, 1));
        assert(byte_or_zero(x, 2) == byte_or_zero(y, 2));
        assert(byte_or_zero(x, 3) == byte_or_zero(y, 3));
        assert(byte_or_zero(x, 4) == byte_or_zero(y, 4));
    }
}

/// What step `k` of a launch releases when it fails: what a call releases itself, the rules once
/// they are installed, the tap once it is made, and in any case the overlay, in this order.
pub open spec fn launch_release(res: ResourcesView, calls: Seq<StepView>, k: int) -> Seq<OpView> {
    let own = if k < 13 {
        Seq::empty()
    } else {
        calls[k - 13].release
    };
    let rules = if k < 8 {
        Seq::empty()
    } else {
        routing_remove_ops()
    };
    let tap = if k < 5 {
        Seq::empty()
    } else {
        tap_destroy_ops(res.tap)
    };
    own + rules + tap + overlay_destroy_ops(res.dm, res.cow)
}

/// A launch that fails releases what it has made by then, and the overlay.
pub proof fn law_launch_releases(
    res: ResourcesView,
    binary: Seq<char>,
    calls: Seq<StepView>,
    k: int,
)
    requires
        0 <= k < 13 + calls.len(),
    ensures
        launch_steps(res, binary, calls).len() == 13 + calls.len(),
        launch_steps(res, binary, calls)[k].release == launch_release(res, calls, k),
{
    let steps = launch_steps(res, binary, calls);
    let inner = start_steps(binary, res.socket) + calls;
    let routed = routing_install_steps() + guarded(inner, routing_remove_ops());
    let overlay = overlay_destroy_ops(res.dm, res.cow);
    if k < 5 {
        assert(steps[k].release =~= overlay);
    } else if k < 8 {
        assert(steps[k].release =~= routed[k - 5].release + tap_destroy_ops(res.tap) + overlay);
        assert(routed[k - 5].release =~= Seq::empty());
    } else {
        assert(steps[k].release =~= inner[k - 8].release + routing_remove_ops() + tap_destroy_ops(
            res.tap,
        ) + overlay);
        if k < 13 {
            assert(inner[k - 8].release =~= Seq::empty());
        } else {
            assert(inner[k - 8] == calls[k - 13]);
        }
    }
    assert(steps[k].release =~= launch_release(res, calls, k));
}

/// The operations of a launch: a subnet is taken at one place only, no loop device is attached,
/// and the API is called by `calls` alone.
pub proof fn lemma_launch_ops(
    res: ResourcesView,
    binary: Seq<char>,
    calls: Seq<StepView>,
    k: int,
)
    requires
        0 <= k < 13 + calls.len(),
    ensures
        launch_steps(res, binary, calls).len() == 13 + calls.len(),
        k < 13 ==> ({
            let op = launch_steps(res, binary, calls)[k].op;
            !(op is Call) && !(op is AttachLoop) && (op is AllocateSubnet <==> k == 1)
        }),
        k >= 13 ==> launch_steps(res, binary, calls)[k].op == calls[k - 13].op,
{
    let steps = launch_steps(res, binary, calls);
    let inner = start_steps(binary, res.socket) + calls;
    let routed = routing_install_steps() + guarded(inner, routing_remove_ops());
    if k == 0 {
    } else if k < 5 {
        assert(steps[k].op == tap_create_steps(res.tap)[k - 1].op);
    } else {
        assert(steps[k].op == routed[k - 5].op);
        if k < 8 {
            assert(routed[k - 5] == routing_install_steps()[k - 5]);
        } else {
            assert(routed[k - 5].op == inner[k - 8].op);
        }
    }
}

/// The VM never runs without its rules: a launch requires KVM first of all, and both rules
/// before the process is started or the API called.
pub proof fn law_rules_come_before_the_vm(
    res: ResourcesView,
    binary: Seq<char>,
    calls: Seq<StepView>,
)
    ensures
        ({
            let steps = launch_steps(res, binary, calls);
            &&& steps[0].op == OpView::RequireKvm
            &&& steps[6].op == rule_op(Rule::RedirectTcp, Change::Append)
            &&& steps[7].op == rule_op(Rule::DropOther, Change::Append)
            &&& forall|k: int| 0 <= k < 8 ==> (#[trigger] steps[k]).required
            &&& forall|k: int|
                0 <= k < steps.len() && ((#[trigger] steps[k]).op is Spawn || steps[k].op is Call)
                    ==> k > 7
        }),
{
    let steps = launch_steps(res, binary, calls);
    let inner = start_steps(binary, res.socket) + calls;
    let routed = routing_install_steps() + guarded(inner, routing_remove_ops());
    assert forall|k: int| 0 <= k < 8 implies (#[trigger] steps[k]).required
        && !(steps[k].op is Spawn) && !(steps[k].op is Call) by {
        if k == 0 {
        } else if k < 5 {
            assert(steps[k].op == tap_create_steps(res.tap)[k - 1].op);
        } else {
            assert(steps[k].op == routed[k - 5].op);
            assert(routed[k - 5] == routing_install_steps()[k - 5]);
        }
    }
    assert(steps[6].op == routed[1].op && steps[7].op == routed[2].op);
}

/// A launch that has got as far as starting the process has both rules in place: each was
/// appended, and that succeeded.
pub proof fn law_vm_runs_behind_its_rules(
    res: ResourcesView,
    binary: Seq<char>,
    calls: Seq<StepView>,
    facts: FactsView,
    events: Seq<EventView>,
)
    requires
        facts.sound(),
        answered(fresh(launch_steps(res, binary, calls), facts), events),
        after(fresh(launch_steps(res, binary, calls), facts), events).at > 7,
    ensures
        ({
            let plan = launch_steps(res, binary, calls);
            &&& plan[6].op == rule_op(Rule::RedirectTcp, Change::Append)
            &&& plan[7].op == rule_op(Rule::DropOther, Change::Append)
            &&& exists|i: int| #[trigger] succeeds(fresh(plan, facts), events, 6, i)
            &&& exists|i: int| #[trigger] succeeds(fresh(plan, facts), events, 7, i)
        }),
{
    let plan = launch_steps(res, binary, calls);
    law_rules_come_before_the_vm(res, binary, calls);
    law_launch_releases(res, binary, calls, 7);
    law_passed_means_succeeded(plan, facts, events, 6);
    law_passed_means_succeeded(plan, facts, events, 7);
}

/// A launch acts on one subnet and one pair of loop devices: once the subnet is known, the rules
/// that are deleted are those of the subnet that they were appended for, and the loop devices
/// that are detached are those that the launch began with.
pub proof fn law_launch_releases_what_it_was_told(
    res: ResourcesView,
    binary: Seq<char>,
    calls: Seq<StepView>,
    facts: FactsView,
    events: Seq<EventView>,
    n: int,
)
    requires
        facts.sound(),
        forall|i: int| 0 <= i < calls.len() ==> (#[trigger] calls[i]).op is Call,
        answered(fresh(launch_steps(res, binary, calls), facts), events),
        0 <= n <= events.len(),
        after(fresh(launch_steps(res, binary, calls), facts), events.take(n)).at > 1,
    ensures
        ({
            let start = fresh(launch_steps(res, binary, calls), facts);
            let then = after(start, events.take(n)).facts;
            let end = after(start, events).facts;
            &&& end.subnet == then.subnet
            &&& arg_text(ArgView::NetworkCidr, end) == arg_text(ArgView::NetworkCidr, then)
            &&& end.base_loop == facts.base_loop
            &&& end.cow_loop == facts.cow_loop
        }),
{
    let plan = launch_steps(res, binary, calls);
    assert forall|j: int| 0 <= j < plan.len() implies {
        &&& !attaches(#[trigger] plan[j], LoopRole::Base)
        &&& !attaches(plan[j], LoopRole::Cow)
        &&& j > 1 ==> plan[j].op != OpView::AllocateSubnet
    } by {
        lemma_launch_ops(res, binary, calls, j);
        if j >= 13 {
            assert(calls[j - 13].op is Call);
        }
    }
    assert(after(fresh(plan, facts), events.take(0)) == fresh(plan, facts));
    lemma_launch_ops(res, binary, calls, 0);
    law_subnet_is_kept(plan, facts, events, n, 1);
    law_base_loop_is_kept(plan, facts, events, 0, -1);
    law_cow_loop_is_kept(plan, facts, events, 0, -1);
}

/// What happens without `/dev/kvm` to a plan that requires KVM first.
proof fn lemma_no_kvm(
    plan: Seq<StepView>,
    release: Seq<OpView>,
    facts: FactsView,
    events: Seq<EventView>,
)
    requires
        facts.sound(),
        plan.len() > 0,
        plan[0] == must_or(OpView::RequireKvm, release),
        answered(fresh(plan, facts), events),
        after(fresh(plan, facts), events).over(),
        events.len() > 0,
        events[0] == EventView::Presence(false),
    ensures
        after(fresh(plan, facts), events).outcome() == Err::<FactsView, Failure>(
            Failure::KvmUnavailable,
        ),
        trace(fresh(plan, facts), events) == seq![OpView::RequireKvm] + release,
{
    let start = fresh(plan, facts);
    assert(events.take(1).drop_last() =~= Seq::empty());
    assert(events.take(1).last() == events[0]);
    assert(after(start, events.take(1).drop_last()) == start);
    assert(after(start, events.take(1)) == start.next(events[0]));
    law_failure_is_final(plan, facts, events, 1);
    law_failure_releases(plan, facts, events);
    assert(plan.take(1).len() == 1);
    assert(ops_of(plan.take(1)) =~= seq![OpView::RequireKvm]);
}

/// Without `/dev/kvm` a launch fails, after the overlay has been released and nothing else been
/// done. There is no fallback.
pub proof fn law_no_kvm_no_vm(
    res: ResourcesView,
    binary: Seq<char>,
    calls: Seq<StepView>,
    facts: FactsView,
    events: Seq<EventView>,
)
    requires
        facts.sound(),
        answered(fresh(launch_steps(res, binary, calls), facts), events),
        after(fresh(launch_steps(res, binary, calls), facts), events).over(),
        events.len() > 0,
        events[0] == EventView::Presence(false),
    ensures
        ({
            let start = fresh(launch_steps(res, binary, calls), facts);
            &&& after(start, events).outcome() == Err::<FactsView, Failure>(
                Failure::KvmUnavailable,
            )
            &&& trace(start, events) == seq![OpView::RequireKvm] + overlay_destroy_ops(
                res.dm,
                res.cow,
            )
        }),
{
    let plan = launch_steps(res, binary, calls);
    let release = overlay_destroy_ops(res.dm, res.cow);
    law_launch_releases(res, binary, calls, 0);
    law_rules_come_before_the_vm(res, binary, calls);
    assert(plan[0].release =~= release);
    lemma_no_kvm(plan, release, facts, events);
}

/// Without `/dev/kvm` no sandbox id whatever is launched from a snapshot: the error tells that
/// KVM is missing, and only the overlay has been released.
pub proof fn law_no_kvm_no_restore(
    sandbox_id: Seq<char>,
    snapshot_path: Seq<char>,
    mem_path: Seq<char>,
    overlay: OverlayView,
    binary: Seq<char>,
    temp_dir: Seq<char>,
    events: Seq<EventView>,
)
    requires
        ({
            let start = fresh(
                from_snapshot_steps(
                    sandbox_id,
                    snapshot_path,
                    mem_path,
                    overlay,
                    binary,
                    temp_dir,
                ),
                overlay_facts(overlay),
            );
            answered(start, events) && after(start, events).over()
        }),
        events.len() > 0,
        events[0] == EventView::Presence(false),
    ensures
        ({
            let start = fresh(
                from_snapshot_steps(
                    sandbox_id,
                    snapshot_path,
                    mem_path,
                    overlay,
                    binary,
                    temp_dir,
                ),
                overlay_facts(overlay),
            );
            &&& after(start, events).outcome() == Err::<FactsView, Failure>(
                Failure::KvmUnavailable,
            )
            &&& trace(start, events) == seq![OpView::RequireKvm] + overlay_destroy_ops(
                overlay.dm_name,
                overlay.cow_path,
            )
        }),
{
    let res = resources_with(sandbox_id, overlay, temp_dir);
    if has_short(sandbox_id) {
        let calls = restore_calls(res, sandbox_id, snapshot_path, mem_path);
        law_no_kvm_no_vm(res, binary, calls, overlay_facts(overlay), events);
    } else {
        lemma_no_kvm(
            unnamed_launch_steps(overlay),
            overlay_destroy_ops(overlay.dm_name, overlay.cow_path),
            overlay_facts(overlay),
            events,
        );
    }
}

/// Without `/dev/kvm` no sandbox id whatever is booted fresh: the error tells that KVM is
/// missing, and only the overlay has been released.
pub proof fn law_no_kvm_no_boot(
    config: FreshBootConfig,
    binary: Seq<char>,
    temp_dir: Seq<char>,
    events: Seq<EventView>,
)
    requires
        ({
            let start = fresh(
                boot_fresh_steps(config, binary, temp_dir),
                overlay_facts(config.workspace_overlay@),
            );
            answered(start, events) && after(start, events).over()
        }),
        events.len() > 0,
        events[0] == EventView::Presence(false),
    ensures
        ({
            let overlay = config.workspace_overlay@;
            let start = fresh(
                boot_fresh_steps(config, binary, temp_dir),
                overlay_facts(overlay),
            );
            &&& after(start, events).outcome() == Err::<FactsView, Failure>(
                Failure::KvmUnavailable,
            )
            &&& trace(start, events) == seq![OpView::RequireKvm] + overlay_destroy_ops(
                overlay.dm_name,
                overlay.cow_path,
            )
        }),
{
    let overlay = config.workspace_overlay@;
    let id = config.sandbox_id@;
    let res = resources_with(id, overlay, temp_dir);
    if has_short(id) {
        let calls = boot_calls(
            res,
            id,
            config.vcpu_count,
            config.mem_mib,
            config.kernel_path@,
            config.rootfs_path@,
        );
        law_no_kvm_no_vm(res, binary, calls, overlay_facts(overlay), events);
    } else {
        lemma_no_kvm(
            unnamed_launch_steps(overlay),
            overlay_destroy_ops(overlay.dm_name, overlay.cow_path),
            overlay_facts(overlay),
            events,
        );
    }
}

/// The launch for an id that cannot name host resources does nothing but look for KVM and release
/// the overlay, whatever the host answers.
pub proof fn law_unnamed_id_launches_nothing(
    overlay: OverlayView,
    facts: FactsView,
    events: Seq<EventView>,
)
    requires
        facts.sound(),
        answered(fresh(unnamed_launch_steps(overlay), facts), events),
        after(fresh(unnamed_launch_steps(overlay), facts), events).over(),
    ensures
        trace(fresh(unnamed_launch_steps(overlay), facts), events) == seq![OpView::RequireKvm]
            + overlay_destroy_ops(overlay.dm_name, overlay.cow_path),
{
    let plan = unnamed_launch_steps(overlay);
    let release = overlay_destroy_ops(overlay.dm_name, overlay.cow_path);
    let end = after(fresh(plan, facts), events);
    if end.outcome() is Ok {
        law_success_does_all(plan, facts, events);
        assert(ops_of(plan) =~= seq![OpView::RequireKvm] + release);
    } else {
        law_failure_releases(plan, facts, events);
        assert(end.at == 0) by {
            if end.at > 0 {
                assert(plan[end.at] == attempts(release)[end.at - 1]);
            }
        }
        assert(ops_of(plan.take(1)) =~= seq![OpView::RequireKvm]);
    }
}

/// Releasing a VM covers all that it holds: the process, the socket, the tap, the snapshot
/// device, both loop devices, the COW file and both rules.
pub proof fn law_release_covers_the_vm(res: ResourcesView)
    ensures
        ({
            let ops = vm_release_ops(res);
            &&& ops.len() == 9
            &&& ops.contains(OpView::StartKill)
            &&& ops.contains(OpView::RemoveFile { path: res.socket })
            &&& ops.contains(tap_delete(res.tap))
            &&& ops.contains(snapshot_removed(res.dm))
            &&& ops.contains(loop_detached(ArgView::BaseLoop))
            &&& ops.contains(loop_detached(ArgView::CowLoop))
            &&& ops.contains(OpView::RemoveFile { path: res.cow })
            &&& ops.contains(rule_op(Rule::RedirectTcp, Change::Delete))
            &&& ops.contains(rule_op(Rule::DropOther, Change::Delete))
        }),
{
    let ops = vm_release_ops(res);
    assert(ops[0] == OpView::StartKill);
    assert(ops[1] == OpView::RemoveFile { path: res.socket });
    assert(ops[2] == tap_delete(res.tap));
    assert(ops[3] == snapshot_removed(res.dm));
    assert(ops[4] == loop_detached(ArgView::BaseLoop));
    assert(ops[5] == loop_detached(ArgView::CowLoop));
    assert(ops[6] == OpView::RemoveFile { path: res.cow });
    assert(ops[7] == rule_op(Rule::RedirectTcp, Change::Delete));
    assert(ops[8] == rule_op(Rule::DropOther, Change::Delete));
}

/// However the destruction of a VM ends, the process was killed first and all that the VM holds
/// was released last. The workspace is synced in between, while its device is still there.
pub proof fn law_destroy_releases_all(
    res: ResourcesView,
    sync: Option<(Seq<char>, Seq<char>)>,
    facts: FactsView,
    events: Seq<EventView>,
)
    requires
        facts.sound(),
        answered(fresh(destroy_steps(res, sync), facts), events),
        after(fresh(destroy_steps(res, sync), facts), events).over(),
    ensures
        ({
            let start = fresh(destroy_steps(res, sync), facts);
            let done = trace(start, events);
            let all = vm_release_ops(res);
            &&& done.len() > all.len()
            &&& done[0] == OpView::Kill
            &&& done.skip(done.len() - all.len()) == all
            &&& sync is None ==> after(start, events).outcome() is Ok
        }),
{
    let plan = destroy_steps(res, sync);
    let start = fresh(plan, facts);
    let end = after(start, events);
    let all = vm_release_ops(res);
    law_release_covers_the_vm(res);
    let synced = match sync {
        Some((dest, mount_dir)) => sync_back_steps(res.device, dest, mount_dir),
        None => Seq::empty(),
    };
    let n = synced.len() as int;
    assert(plan.len() == n + 2 + all.len());
    assert(plan[0].op == OpView::Kill && !plan[0].required);
    assert forall|k: int| 0 < k <= n implies plan[k].release == synced[k - 1].release + all by {}
    assert forall|k: int| n < k < plan.len() implies !(#[trigger] plan[k]).required by {
        if k > n + 1 {
            assert(plan[k] == attempts(all)[k - n - 2]);
        }
    }
    let done = trace(start, events);
    if end.outcome() is Ok {
        law_success_does_all(plan, facts, events);
        assert(done.skip(done.len() - all.len()) =~= all) by {
            assert forall|j: int| 0 <= j < all.len() implies done[n + 2 + j] == all[j] by {
                assert(plan[n + 2 + j] == attempts(all)[j]);
            }
        }
    } else {
        law_failure_releases(plan, facts, events);
        assert(0 < end.at <= n);
        assert(plan[end.at].release == synced[end.at - 1].release + all);
        assert(done[0] == OpView::Kill);
        assert(done.skip(done.len() - all.len()) =~= all);
    }
}

/// What a VM holds on the host is named after its sandbox: the tap `fc-tap-<id>`, the snapshot
/// device `fc-ws-<id>` below `/dev/mapper/`, the file `<id>.cow` in the overlay directory, and the
/// socket `fc-<id>.sock` in the directory for temporary files. With the sandbox's own overlay this
/// is the same by either way.
pub proof fn law_resource_names(
    sandbox_id: Seq<char>,
    overlay_dir: Seq<char>,
    temp_dir: Seq<char>,
    overlay: OverlayView,
)
    ensures
        resources_of(sandbox_id, overlay_dir, temp_dir) == (ResourcesView {
            tap: "fc-tap-"@ + short(sandbox_id),
            dm: "fc-ws-"@ + short(sandbox_id),
            device: "/dev/mapper/fc-ws-"@ + short(sandbox_id),
            cow: joined(overlay_dir, short(sandbox_id) + ".cow"@),
            socket: joined(temp_dir, "fc-"@ + short(sandbox_id) + ".sock"@),
        }),
        resources_with(sandbox_id, overlay, temp_dir) == (ResourcesView {
            tap: "fc-tap-"@ + short(sandbox_id),
            dm: overlay.dm_name,
            device: overlay.device_path,
            cow: overlay.cow_path,
            socket: joined(temp_dir, "fc-"@ + short(sandbox_id) + ".sock"@),
        }),
        resources_with(
            sandbox_id,
            overlay_of(sandbox_id, overlay_dir, overlay.base_loop, overlay.cow_loop),
            temp_dir,
        ) == resources_of(sandbox_id, overlay_dir, temp_dir),
        socket_path(temp_dir, sandbox_id) == joined(
            temp_dir,
            "fc-"@ + short(sandbox_id) + ".sock"@,
        ),
{
    law_overlay_names(
        sandbox_id,
        overlay_dir,
        overlay.base_loop,
        overlay.cow_loop,
        temp_dir,
        Seq::empty(),
    );
    law_tap_name(sandbox_id);
}

/// A running VM is known by its own subnet and its own overlay's loop devices.
pub proof fn law_vm_facts(subnet: VmSubnet, overlay: OverlayView)
    ensures
        vm_facts(subnet, overlay).subnet == Some(subnet),
        vm_facts(subnet, overlay).base_loop == overlay.base_loop,
        vm_facts(subnet, overlay).cow_loop == overlay.cow_loop,
{
}

/// The guest's MAC address is 02 and the first five bytes of the id in hexadecimal, with colons
/// between them, where a missing byte counts as zero.
pub proof fn law_mac_digits(sandbox_id: Seq<char>, i: int)
    requires
        0 <= i < 5,
    ensures
        ({
            let bytes = encode_utf8(sandbox_id);
            let byte = if i < bytes.len() {
                bytes[i] as int
            } else {
                0
            };
            let text = mac(sandbox_id);
            &&& text.len() == 17
            &&& text[0] == '0' && text[1] == '2'
            &&& text[2 + 3 * i] == ':'
            &&& text[3 + 3 * i] == "0123456789abcdef"@[byte / 16]
            &&& text[4 + 3 * i] == "0123456789abcdef"@[byte % 16]
        }),
{
    reveal_strlit("02:");
    reveal_strlit(":");
    let bytes = encode_utf8(sandbox_id);
    law_hex_pair(byte_or_zero(bytes, i));
    let pair = hex_pair(byte_or_zero(bytes, i));
    assert(mac(sandbox_id)[3 + 3 * i] == pair[0] && mac(sandbox_id)[4 + 3 * i] == pair[1]);
}

/// The operations of a launch, part by part.
proof fn lemma_launch_parts(res: ResourcesView, binary: Seq<char>, calls: Seq<StepView>)
    ensures
        ops_of(launch_steps(res, binary, calls)) == seq![OpView::RequireKvm] + ops_of(
            tap_create_steps(res.tap),
        ) + ops_of(routing_install_steps()) + ops_of(start_steps(binary, res.socket)) + ops_of(calls),
{
    let steps = launch_steps(res, binary, calls);
    let inner = start_steps(binary, res.socket) + calls;
    let routed = routing_install_steps() + guarded(inner, routing_remove_ops());
    let parts = seq![OpView::RequireKvm] + ops_of(tap_create_steps(res.tap)) + ops_of(
        routing_install_steps(),
    ) + ops_of(start_steps(binary, res.socket)) + ops_of(calls);
    assert forall|k: int| 0 <= k < steps.len() implies ops_of(steps)[k] == parts[k] by {
        if k >= 5 {
            assert(steps[k].op == routed[k - 5].op);
            if k >= 8 {
                assert(routed[k - 5].op == inner[k - 8].op);
            }
        }
    }
    assert(ops_of(steps) =~= parts);
}

/// A launch asks the host, in this order and before any call: whether KVM is there; for the tap of
/// the VM, addressed in a subnet of its own; for IP forwarding and the two rules of that subnet;
/// whether the binary is there; for the removal of a stale socket; for the binary to be started on
/// that socket; and for the socket to be waited for. Only the removal may fail.
pub proof fn law_launch_commands(
    res: ResourcesView,
    binary: Seq<char>,
    calls: Seq<StepView>,
    facts: FactsView,
    subnet: VmSubnet,
)
    requires
        facts.subnet == Some(subnet),
    ensures
        ({
            let steps = launch_steps(res, binary, calls);
            let net = network_cidr(subnet);
            &&& steps.len() == 13 + calls.len()
            &&& asked(ops_of(steps), facts) == seq![
                ActionView::CheckExists("/dev/kvm"@),
                ActionView::AllocateSubnet,
                command("ip"@, seq!["tuntap"@, "add"@, "dev"@, res.tap, "mode"@, "tap"@]),
                command(
                    "ip"@,
                    seq![
                        "addr"@,
                        "add"@,
                        dotted(subnet.host_ip) + "/"@ + decimal(subnet.prefix_len as nat),
                        "dev"@,
                        res.tap,
                    ],
                ),
                command("ip"@, seq!["link"@, "set"@, res.tap, "up"@]),
                command("sysctl"@, seq!["-w"@, "net.ipv4.ip_forward"@ + "="@ + "1"@]),
                command(
                    "iptables"@,
                    seq![
                        "-t"@,
                        "nat"@,
                        "-A"@,
                        "PREROUTING"@,
                        "-s"@,
                        net,
                        "-p"@,
                        "tcp"@,
                        "-j"@,
                        "REDIRECT"@,
                        "--to-port"@,
                        decimal(3128),
                    ],
                ),
                command(
                    "iptables"@,
                    seq!["-A"@, "FORWARD"@, "-s"@, net, "!"@, "-p"@, "tcp"@, "-j"@, "DROP"@],
                ),
                ActionView::CheckExists(binary),
                ActionView::RemoveFile(res.socket),
                ActionView::Spawn(
                    ProgramView { name: binary, args: seq!["--api-sock"@, res.socket] },
                ),
                ActionView::ReadClock,
                ActionView::Poll(res.socket),
            ] + asked(ops_of(calls), facts)
            &&& forall|k: int| 0 <= k < 13 ==> ((#[trigger] steps[k]).required <==> k != 9)
            &&& forall|k: int|
                13 <= k < steps.len() ==> (#[trigger] steps[k]).required == calls[k - 13].required
        }),
{
    let steps = launch_steps(res, binary, calls);
    let inner = start_steps(binary, res.socket) + calls;
    let routed = routing_install_steps() + guarded(inner, routing_remove_ops());
    lemma_launch_parts(res, binary, calls);
    law_tap_commands(res.tap, facts, subnet);
    law_rule_commands(subnet, facts);
    let start = start_steps(binary, res.socket);
    let started = asked(ops_of(start), facts);
    assert(started =~= seq![
        ActionView::CheckExists(binary),
        ActionView::RemoveFile(res.socket),
        ActionView::Spawn(ProgramView { name: binary, args: seq!["--api-sock"@, res.socket] }),
        ActionView::ReadClock,
        ActionView::Poll(res.socket),
    ]);
    let tap = asked(ops_of(tap_create_steps(res.tap)), facts);
    let rules = asked(ops_of(routing_install_steps()), facts);
    assert(asked(ops_of(steps), facts) =~= seq![ActionView::CheckExists("/dev/kvm"@)] + tap + rules
        + started + asked(ops_of(calls), facts));
    assert forall|k: int| 0 <= k < steps.len() implies (#[trigger] steps[k]).required == (if k < 13 {
        k != 9
    } else {
        calls[k - 13].required
    }) by {
        if k >= 5 {
            assert(steps[k].required == routed[k - 5].required);
            if k >= 8 {
                assert(routed[k - 5].required == inner[k - 8].required);
            }
        }
    }
}

/// Restoring a VM loads the given snapshot and memory without resuming, attaches the workspace
/// device as a writable drive that is not the root, attaches the tap with the MAC of the sandbox,
/// and resumes, in this order, each of which must succeed.
pub proof fn law_restore_calls(
    res: ResourcesView,
    sandbox_id: Seq<char>,
    snapshot_path: Seq<char>,
    mem_path: Seq<char>,
)
    ensures
        ({
            let made = restore_calls(res, sandbox_id, snapshot_path, mem_path);
            &&& ops_of(made) == seq![
                OpView::Call(
                    Call {
                        socket_path: res.socket,
                        method: Method::Put,
                        path: "/snapshot/load"@,
                        body: Body::SnapshotLoad {
                            snapshot_path,
                            backend_type: "File"@,
                            backend_path: mem_path,
                            enable_diff_snapshots: false,
                            resume_vm: false,
                        },
                    },
                ),
                OpView::Call(
                    Call {
                        socket_path: res.socket,
                        method: Method::Patch,
                        path: "/drives/workspace"@,
                        body: Body::Drive {
                            drive_id: "workspace"@,
                            path_on_host: res.device,
                            is_root_device: false,
                            is_read_only: false,
                        },
                    },
                ),
                OpView::Call(
                    Call {
                        socket_path: res.socket,
                        method: Method::Put,
                        path: "/network-interfaces/"@ + res.tap,
                        body: Body::NetworkInterface {
                            iface_id: res.tap,
                            host_dev_name: res.tap,
                            guest_mac: mac(sandbox_id),
                        },
                    },
                ),
                OpView::Call(
                    Call {
                        socket_path: res.socket,
                        method: Method::Put,
                        path: "/actions"@,
                        body: Body::InstanceAction { action_type: "ResumeVm"@ },
                    },
                ),
            ]
            &&& forall|k: int|
                0 <= k < made.len() ==> (#[trigger] made[k]).required && made[k].release
                    == Seq::<OpView>::empty()
        }),
{
}

/// Booting a VM sets the machine's CPUs and memory, the kernel and its command line, the root drive
/// (read-only), the workspace drive (writable), and the tap with the MAC of the sandbox, and then
/// starts the instance, in this order, each of which must succeed.
pub proof fn law_boot_calls(
    res: ResourcesView,
    sandbox_id: Seq<char>,
    vcpu_count: u32,
    mem_mib: u32,
    kernel_path: Seq<char>,
    rootfs_path: Seq<char>,
)
    ensures
        ({
            let made = boot_calls(res, sandbox_id, vcpu_count, mem_mib, kernel_path, rootfs_path);
            &&& ops_of(made) == seq![
                OpView::Call(
                    Call {
                        socket_path: res.socket,
                        method: Method::Put,
                        path: "/machine-config"@,
                        body: Body::MachineConfig { vcpu_count, mem_size_mib: mem_mib },
                    },
                ),
                OpView::Call(
                    Call {
                        socket_path: res.socket,
                        method: Method::Put,
                        path: "/boot-source"@,
                        body: Body::BootSource {
                            kernel_image_path: kernel_path,
                            boot_args:
                                "console=ttyS0 reboot=k panic=1 pci=off ro root=/dev/vda init=/sbin/tini -- /opt/openshell/bin/openshell-sandbox"@,
                        },
                    },
                ),
                OpView::Call(
                    Call {
                        socket_path: res.socket,
                        method: Method::Put,
                        path: "/drives/rootfs"@,
                        body: Body::Drive {
                            drive_id: "rootfs"@,
                            path_on_host: rootfs_path,
                            is_root_device: true,
                            is_read_only: true,
                        },
                    },
                ),
                OpView::Call(
                    Call {
                        socket_path: res.socket,
                        method: Method::Put,
                        path: "/drives/workspace"@,
                        body: Body::Drive {
                            drive_id: "workspace"@,
                            path_on_host: res.device,
                            is_root_device: false,
                            is_read_only: false,
                        },
                    },
                ),
                OpView::Call(
                    Call {
                        socket_path: res.socket,
                        method: Method::Put,
                        path: "/network-interfaces/"@ + res.tap,
                        body: Body::NetworkInterface {
                            iface_id: res.tap,
                            host_dev_name: res.tap,
                            guest_mac: mac(sandbox_id),
                        },
                    },
                ),
                OpView::Call(
                    Call {
                        socket_path: res.socket,
                        method: Method::Put,
                        path: "/actions"@,
                        body: Body::InstanceAction { action_type: "InstanceStart"@ },
                    },
                ),
            ]
            &&& forall|k: int|
                0 <= k < made.len() ==> (#[trigger] made[k]).required && made[k].release
                    == Seq::<OpView>::empty()
        }),
{
}

/// Snapshotting a VM pauses it and then writes its state and its memory to the given files, each
/// of which must succeed.
pub proof fn law_snapshot_calls(socket: Seq<char>, snapshot_path: Seq<char>, mem_path: Seq<char>)
    ensures
        ({
            let made = snapshot_calls(socket, snapshot_path, mem_path);
            &&& ops_of(made) == seq![
                OpView::Call(
                    Call {
                        socket_path: socket,
                        method: Method::Put,
                        path: "/actions"@,
                        body: Body::InstanceAction { action_type: "PauseVm"@ },
                    },
                ),
                OpView::Call(
                    Call {
                        socket_path: socket,
                        method: Method::Put,
                        path: "/snapshot/create"@,
                        body: Body::SnapshotCreate {
                            snapshot_type: "Full"@,
                            snapshot_path,
                            mem_file_path: mem_path,
                        },
                    },
                ),
            ]
            &&& forall|k: int|
                0 <= k < made.len() ==> (#[trigger] made[k]).required && made[k].release
                    == Seq::<OpView>::empty()
        }),
{
}

/// Snapshots are taken of paused VMs: in a run that snapshots a VM, a snapshot is written directly
/// after the VM behind the same socket was paused, and that succeeded.
pub proof fn law_snapshot_is_of_a_paused_vm(
    socket: Seq<char>,
    snapshot_path: Seq<char>,
    mem_path: Seq<char>,
    facts: FactsView,
    events: Seq<EventView>,
    j: int,
)
    requires
        facts.sound(),
        ({
            let start = fresh(snapshot_calls(socket, snapshot_path, mem_path), facts);
            let done = trace(start, events);
            &&& answered(start, events)
            &&& 0 <= j < done.len()
            &&& done[j] matches OpView::Call(call) && call.body is SnapshotCreate
        }),
    ensures
        ({
            let start = fresh(snapshot_calls(socket, snapshot_path, mem_path), facts);
            let done = trace(start, events);
            &&& j > 0
            &&& done[j]->Call_0.socket_path == socket
            &&& done[j - 1] == OpView::Call(
                Call {
                    socket_path: socket,
                    method: Method::Put,
                    path: "/actions"@,
                    body: Body::InstanceAction { action_type: "PauseVm"@ },
                },
            )
            &&& exists|i: int| #[trigger] succeeds(start, events, j - 1, i)
        }),
{
    let plan = snapshot_calls(socket, snapshot_path, mem_path);
    let start = fresh(plan, facts);
    let end = after(start, events);
    let done = trace(start, events);
    law_snapshot_calls(socket, snapshot_path, mem_path);
    law_trace_is_history(plan, facts, events);
    if end.phase is Releasing {
        assert(plan[end.at].release.len() == 0);
    }
    assert(done[j] == plan[j].op);
    assert(j == 1);
    assert(done[0] == plan[0].op);
    assert(ops_of(plan)[0] == plan[0].op);
    law_passed_means_succeeded(plan, facts, events, 0);
}

/// Whether one process alone is started among some operations, at position `at`: the given binary
/// on the given socket, after the binary was looked for, before the socket is waited for, and
/// before any call, all of which go to that socket.
pub open spec fn starts_one_process(
    ops: Seq<OpView>,
    at: int,
    binary: Seq<char>,
    socket: Seq<char>,
) -> bool {
    &&& 2 <= at < ops.len() - 2
    &&& ops[at] == OpView::Spawn { binary, socket_path: socket }
    &&& ops[at - 2] == OpView::RequireBinary { path: binary }
    &&& ops[at + 2] == OpView::AwaitSocket { path: socket }
    &&& forall|k: int| 0 <= k < ops.len() && (#[trigger] ops[k]) is Spawn ==> k == at
    &&& forall|k: int|
        0 <= k < ops.len() && (#[trigger] ops[k]) is Call ==> k > at + 2
            && ops[k]->Call_0.socket_path == socket
}

/// A launch starts one process, the given binary, on the VM's socket, and calls the API there.
pub proof fn lemma_launch_starts_one_process(
    res: ResourcesView,
    binary: Seq<char>,
    calls: Seq<StepView>,
)
    requires
        forall|i: int|
            0 <= i < calls.len() ==> ((#[trigger] calls[i]).op matches OpView::Call(call)
                && call.socket_path == res.socket),
    ensures
        starts_one_process(ops_of(launch_steps(res, binary, calls)), 10, binary, res.socket),
{
    lemma_launch_parts(res, binary, calls);
    let ops = ops_of(launch_steps(res, binary, calls));
    let tap = ops_of(tap_create_steps(res.tap));
    let rules = ops_of(routing_install_steps());
    let start = ops_of(start_steps(binary, res.socket));
    assert(ops.len() == 13 + calls.len());
    assert(forall|k: int| 1 <= k < 5 ==> ops[k] == #[trigger] tap[k - 1]);
    assert forall|k: int| 0 <= k < ops.len() implies {
        &&& (#[trigger] ops[k]) is Spawn ==> k == 10
        &&& ops[k] is Call ==> k > 12 && ops[k]->Call_0.socket_path == res.socket
    } by {
        if 1 <= k < 5 {
            assert(ops[k] == tap[k - 1]);
        } else if 5 <= k < 8 {
            assert(ops[k] == rules[k - 5]);
        } else if 8 <= k < 13 {
            assert(ops[k] == start[k - 8]);
        } else if k >= 13 {
            assert(ops[k] == calls[k - 13].op);
        }
    }
    assert(ops[8] == start[0] && ops[10] == start[2] && ops[12] == start[4]);
}

/// Launched from a snapshot, an id with a short form gets a VM of its own: the given firecracker
/// binary is started on the sandbox's socket and nothing else is, the tap is the sandbox's, the
/// drive is the given overlay's device, and the given snapshot is loaded and then resumed.
pub proof fn law_from_snapshot(
    sandbox_id: Seq<char>,
    snapshot_path: Seq<char>,
    mem_path: Seq<char>,
    overlay: OverlayView,
    binary: Seq<char>,
    temp_dir: Seq<char>,
)
    requires
        has_short(sandbox_id),
    ensures
        ({
            let steps = from_snapshot_steps(
                sandbox_id,
                snapshot_path,
                mem_path,
                overlay,
                binary,
                temp_dir,
            );
            let res = ResourcesView {
                tap: "fc-tap-"@ + short(sandbox_id),
                dm: overlay.dm_name,
                device: overlay.device_path,
                cow: overlay.cow_path,
                socket: joined(temp_dir, "fc-"@ + short(sandbox_id) + ".sock"@),
            };
            let calls = restore_calls(res, sandbox_id, snapshot_path, mem_path);
            &&& steps == launch_steps(res, binary, calls)
            &&& starts_one_process(ops_of(steps), 10, binary, res.socket)
            &&& ops_of(steps).len() == 17
            &&& ops_of(steps)[13]->Call_0.body == (Body::SnapshotLoad {
                snapshot_path,
                backend_type: "File"@,
                backend_path: mem_path,
                enable_diff_snapshots: false,
                resume_vm: false,
            })
            &&& ops_of(steps)[14]->Call_0.body->path_on_host == overlay.device_path
            &&& ops_of(steps)[15]->Call_0.body == (Body::NetworkInterface {
                iface_id: "fc-tap-"@ + short(sandbox_id),
                host_dev_name: "fc-tap-"@ + short(sandbox_id),
                guest_mac: mac(sandbox_id),
            })
            &&& ops_of(steps)[16]->Call_0.body == (Body::InstanceAction {
                action_type: "ResumeVm"@,
            })
        }),
{
    law_resource_names(sandbox_id, Seq::empty(), temp_dir, overlay);
    let res = resources_with(sandbox_id, overlay, temp_dir);
    let calls = restore_calls(res, sandbox_id, snapshot_path, mem_path);
    law_restore_calls(res, sandbox_id, snapshot_path, mem_path);
    lemma_calls_go_to_the_socket(res, calls);
    lemma_launch_starts_one_process(res, binary, calls);
    lemma_launch_parts(res, binary, calls);
    let ops = ops_of(launch_steps(res, binary, calls));
    assert(forall|k: int| 0 <= k < 4 ==> ops[13 + k] == #[trigger] ops_of(calls)[k]);
    assert(ops[13] == ops_of(calls)[0] && ops[14] == ops_of(calls)[1] && ops[15] == ops_of(
        calls,
    )[2] && ops[16] == ops_of(calls)[3]);
}

/// Calls by their operations are calls by their steps.
proof fn lemma_calls_go_to_the_socket(res: ResourcesView, calls: Seq<StepView>)
    requires
        forall|i: int|
            0 <= i < calls.len() ==> ((#[trigger] ops_of(calls)[i]) matches OpView::Call(call)
                && call.socket_path == res.socket),
    ensures
        forall|i: int|
            0 <= i < calls.len() ==> ((#[trigger] calls[i]).op matches OpView::Call(call)
                && call.socket_path == res.socket),
{
    assert forall|i: int| 0 <= i < calls.len() implies ((#[trigger] calls[i]).op matches OpView::Call(
        call,
    ) && call.socket_path == res.socket) by {
        assert(ops_of(calls)[i] == calls[i].op);
    }
}

/// Booted fresh, an id with a short form gets a VM of its own: the given firecracker binary is
/// started on the sandbox's socket and nothing else is, the tap is the sandbox's, the machine, the
/// kernel and the root drive are those of the configuration, the workspace drive is the given
/// overlay's device, and the instance is started last.
pub proof fn law_boot_fresh(config: FreshBootConfig, binary: Seq<char>, temp_dir: Seq<char>)
    requires
        has_short(config.sandbox_id@),
    ensures
        ({
            let steps = boot_fresh_steps(config, binary, temp_dir);
            let id = config.sandbox_id@;
            let overlay = config.workspace_overlay@;
            let res = ResourcesView {
                tap: "fc-tap-"@ + short(id),
                dm: overlay.dm_name,
                device: overlay.device_path,
                cow: overlay.cow_path,
                socket: joined(temp_dir, "fc-"@ + short(id) + ".sock"@),
            };
            let calls = boot_calls(
                res,
                id,
                config.vcpu_count,
                config.mem_mib,
                config.kernel_path@,
                config.rootfs_path@,
            );
            &&& steps == launch_steps(res, binary, calls)
            &&& starts_one_process(ops_of(steps), 10, binary, res.socket)
            &&& ops_of(steps).len() == 19
            &&& ops_of(steps)[13]->Call_0.body == (Body::MachineConfig {
                vcpu_count: config.vcpu_count,
                mem_size_mib: config.mem_mib,
            })
            &&& ops_of(steps)[14]->Call_0.body->kernel_image_path == config.kernel_path@
            &&& ops_of(steps)[15]->Call_0.body == (Body::Drive {
                drive_id: "rootfs"@,
                path_on_host: config.rootfs_path@,
                is_root_device: true,
                is_read_only: true,
            })
            &&& ops_of(steps)[16]->Call_0.body->path_on_host == overlay.device_path
            &&& ops_of(steps)[17]->Call_0.body == (Body::NetworkInterface {
                iface_id: "fc-tap-"@ + short(id),
                host_dev_name: "fc-tap-"@ + short(id),
                guest_mac: mac(id),
            })
            &&& ops_of(steps)[18]->Call_0.body == (Body::InstanceAction {
                action_type: "InstanceStart"@,
            })
        }),
{
    let id = config.sandbox_id@;
    let overlay = config.workspace_overlay@;
    law_resource_names(id, Seq::empty(), temp_dir, overlay);
    let res = resources_with(id, overlay, temp_dir);
    let calls = boot_calls(
        res,
        id,
        config.vcpu_count,
        config.mem_mib,
        config.kernel_path@,
        config.rootfs_path@,
    );
    law_boot_calls(
        res,
        id,
        config.vcpu_count,
        config.mem_mib,
        config.kernel_path@,
        config.rootfs_path@,
    );
    lemma_calls_go_to_the_socket(res, calls);
    lemma_launch_starts_one_process(res, binary, calls);
    lemma_launch_parts(res, binary, calls);
    let ops = ops_of(launch_steps(res, binary, calls));
    let sent = ops_of(calls);
    assert(ops[13] == sent[0] && ops[14] == sent[1] && ops[15] == sent[2] && ops[16] == sent[3]
        && ops[17] == sent[4] && ops[18] == sent[5]);
}

/// Releasing a running VM kills its process, removes its socket, deletes its tap, removes its
/// snapshot device, detaches its two loop devices, removes its COW file, and deletes the two rules
/// of its subnet, in this order.
pub proof fn law_release_commands(res: ResourcesView, subnet: VmSubnet, overlay: OverlayView)
    ensures
        ({
            let net = network_cidr(subnet);
            asked(vm_release_ops(res), vm_facts(subnet, overlay)) == seq![
                ActionView::StartKill,
                ActionView::RemoveFile(res.socket),
                command("ip"@, seq!["tuntap"@, "del"@, "dev"@, res.tap, "mode"@, "tap"@]),
                command("dmsetup"@, seq!["remove"@, res.dm]),
                command("losetup"@, seq!["-d"@, overlay.base_loop]),
                command("losetup"@, seq!["-d"@, overlay.cow_loop]),
                ActionView::RemoveFile(res.cow),
                command(
                    "iptables"@,
                    seq![
                        "-t"@,
                        "nat"@,
                        "-D"@,
                        "PREROUTING"@,
                        "-s"@,
                        net,
                        "-p"@,
                        "tcp"@,
                        "-j"@,
                        "REDIRECT"@,
                        "--to-port"@,
                        decimal(3128),
                    ],
                ),
                command(
                    "iptables"@,
                    seq!["-D"@, "FORWARD"@, "-s"@, net, "!"@, "-p"@, "tcp"@, "-j"@, "DROP"@],
                ),
            ]
        }),
{
    let facts = vm_facts(subnet, overlay);
    law_tap_commands(res.tap, facts, subnet);
    law_rule_commands(subnet, facts);
    law_overlay_commands(res.dm, res.cow, Seq::empty(), facts);
    assert(asked(vm_release_ops(res), facts) =~= seq![
        ActionView::StartKill,
        ActionView::RemoveFile(res.socket),
    ] + asked(tap_destroy_ops(res.tap), facts) + asked(overlay_destroy_ops(res.dm, res.cow), facts)
        + asked(routing_remove_ops(), facts));
}

/// Destroying a VM kills its process, syncs its workspace device back where that is wanted, by way
/// of the mount point, removes its socket, and releases all that it holds. Only the syncing can
/// fail, and whatever stops the run before the release brings the release with it.
pub proof fn law_destroy_steps(res: ResourcesView, dest: Seq<char>, dir: Seq<char>, k: int)
    requires
        0 <= k < 7,
    ensures
        ({
            let all = vm_release_ops(res);
            let bare = destroy_steps(res, None);
            let synced = destroy_steps(res, Some((dest, dir)));
            let sync = sync_back_steps(res.device, dest, dir);
            &&& ops_of(bare) == seq![OpView::Kill, OpView::RemoveFile { path: res.socket }] + all
            &&& ops_of(synced) == seq![OpView::Kill] + ops_of(sync) + seq![
                OpView::RemoveFile { path: res.socket },
            ] + all
            &&& forall|i: int| 0 <= i < bare.len() ==> !(#[trigger] bare[i]).required
            &&& forall|i: int|
                0 <= i < synced.len() ==> ((#[trigger] synced[i]).required <==> 1 <= i < 4)
            &&& synced[k].release == (if k == 3 {
                leave_mount_ops(dir)
            } else {
                Seq::empty()
            }) + all
            &&& k < 2 ==> bare[k].release == all
        }),
{
    let all = vm_release_ops(res);
    let bare = destroy_steps(res, None);
    let synced = destroy_steps(res, Some((dest, dir)));
    let sync = sync_back_steps(res.device, dest, dir);
    law_release_covers_the_vm(res);
    let bare_ops = seq![OpView::Kill, OpView::RemoveFile { path: res.socket }] + all;
    let synced_ops = seq![OpView::Kill] + ops_of(sync) + seq![
        OpView::RemoveFile { path: res.socket },
    ] + all;
    assert(bare.len() == 11 && synced.len() == 16);
    assert forall|i: int| 0 <= i < 11 implies ops_of(bare)[i] == bare_ops[i] && !(
    #[trigger] bare[i]).required by {
        if i >= 2 {
            assert(bare[i] == attempts(all)[i - 2]);
        }
    }
    assert forall|i: int| 0 <= i < 16 implies ops_of(synced)[i] == synced_ops[i] && ((
    #[trigger] synced[i]).required <==> 1 <= i < 4) by {
        if i >= 7 {
            assert(synced[i] == attempts(all)[i - 7]);
        } else if 1 <= i < 6 {
            assert(synced[i].op == sync[i - 1].op && synced[i].required == sync[i - 1].required);
        }
    }
    assert(ops_of(bare) =~= bare_ops);
    assert(ops_of(synced) =~= synced_ops);
    if 1 <= k < 6 {
        assert(synced[k].release == sync[k - 1].release + all);
        assert(k != 3 ==> sync[k - 1].release =~= Seq::empty());
    } else {
        assert(synced[k].release =~= Seq::<OpView>::empty() + all);
    }
    if k < 2 {
        assert(bare[k].release =~= all);
    }
}

/// What a VM holds on the host is its own tap, its own overlay's device and file, and its own
/// socket. It is valid where its rules are those of its tap's subnet, which has a network address.
pub proof fn law_vm_holds_its_own(vm: FirecrackerVm, res: Resources)
    ensures
        vm.holds() == (ResourcesView {
            tap: vm.tap.name@,
            dm: vm.overlay.dm_name@,
            device: vm.overlay.device_path@,
            cow: vm.overlay.cow_path@,
            socket: vm.socket_path@,
        }),
        res@ == (ResourcesView {
            tap: res.tap@,
            dm: res.dm@,
            device: res.device@,
            cow: res.cow@,
            socket: res.socket@,
        }),
        vm.valid() <==> vm.routing.subnet == vm.tap.subnet && vm.tap.subnet.host_ip.d >= 1,
{
}

/// A launch that fails undoes what it has done by then, in reverse: where the rules are installed
/// both are deleted; where the tap is made it is deleted; and in any case the overlay is done away
/// with.
pub proof fn law_failed_launch_undoes_what_it_did(
    res: ResourcesView,
    binary: Seq<char>,
    calls: Seq<StepView>,
    facts: FactsView,
    subnet: VmSubnet,
    k: int,
)
    requires
        facts.subnet == Some(subnet),
        0 <= k < 13 + calls.len(),
        k >= 13 ==> calls[k - 13].release == Seq::<OpView>::empty(),
    ensures
        ({
            let net = network_cidr(subnet);
            let no_rules = seq![
                command(
                    "iptables"@,
                    seq![
                        "-t"@,
                        "nat"@,
                        "-D"@,
                        "PREROUTING"@,
                        "-s"@,
                        net,
                        "-p"@,
                        "tcp"@,
                        "-j"@,
                        "REDIRECT"@,
                        "--to-port"@,
                        decimal(3128),
                    ],
                ),
                command(
                    "iptables"@,
                    seq!["-D"@, "FORWARD"@, "-s"@, net, "!"@, "-p"@, "tcp"@, "-j"@, "DROP"@],
                ),
            ];
            let no_tap = seq![
                command("ip"@, seq!["tuntap"@, "del"@, "dev"@, res.tap, "mode"@, "tap"@]),
            ];
            let no_overlay = seq![
                command("dmsetup"@, seq!["remove"@, res.dm]),
                command("losetup"@, seq!["-d"@, facts.base_loop]),
                command("losetup"@, seq!["-d"@, facts.cow_loop]),
                ActionView::RemoveFile(res.cow),
            ];
            asked(launch_steps(res, binary, calls)[k].release, facts) == if k < 5 {
                no_overlay
            } else if k < 8 {
                no_tap + no_overlay
            } else {
                no_rules + no_tap + no_overlay
            }
        }),
{
    law_launch_releases(res, binary, calls, k);
    law_tap_commands(res.tap, facts, subnet);
    law_rule_commands(subnet, facts);
    law_overlay_commands(res.dm, res.cow, Seq::empty(), facts);
    let rules = asked(routing_remove_ops(), facts);
    let tap = asked(tap_destroy_ops(res.tap), facts);
    let overlay = asked(overlay_destroy_ops(res.dm, res.cow), facts);
    let undone = asked(launch_steps(res, binary, calls)[k].release, facts);
    if k < 5 {
        assert(undone =~= overlay);
    } else if k < 8 {
        assert(undone =~= tap + overlay);
    } else {
        assert(undone =~= rules + tap + overlay);
    }
}

/// An id that cannot name host resources has KVM looked for and the overlay released, and nothing
/// else, however it is launched.
pub proof fn law_unnamed_id_is_launched_nowhere(
    sandbox_id: Seq<char>,
    snapshot_path: Seq<char>,
    mem_path: Seq<char>,
    overlay: OverlayView,
    config: FreshBootConfig,
    binary: Seq<char>,
    temp_dir: Seq<char>,
)
    requires
        !has_short(sandbox_id),
        !has_short(config.sandbox_id@),
    ensures
        ops_of(
            from_snapshot_steps(sandbox_id, snapshot_path, mem_path, overlay, binary, temp_dir),
        ) == seq![OpView::RequireKvm] + overlay_destroy_ops(overlay.dm_name, overlay.cow_path),
        ops_of(boot_fresh_steps(config, binary, temp_dir)) == seq![OpView::RequireKvm]
            + overlay_destroy_ops(
            config.workspace_overlay@.dm_name,
            config.workspace_overlay@.cow_path,
        ),
{
    let own = config.workspace_overlay@;
    assert(ops_of(unnamed_launch_steps(overlay)) =~= seq![OpView::RequireKvm] + overlay_destroy_ops(
        overlay.dm_name,
        overlay.cow_path,
    ));
    assert(ops_of(unnamed_launch_steps(own)) =~= seq![OpView::RequireKvm] + overlay_destroy_ops(
        own.dm_name,
        own.cow_path,
    ));
}

} // verus!
