//! The gateway-level runtime: building the base snapshot, and sandboxes restored from it.

use crate::api::{Body, Call, Method};
use crate::event::EventView;
use crate::facts::{
    args_text, no_facts, size_arg, size_text, Arg, ArgView, Facts, FactsView,
};
use crate::host::{asked, command, ActionView, LoopRole, Op, OpView};
use crate::id::{
    has_short, has_short_id, law_short_is_prefix, law_short_of_ascii, short, short_id,
};
use crate::overlay::{
    empty_image_plan, is_v4_text, make_ext4, mount_dir, overlay_create_plan, overlay_create_steps,
    overlay_of, pack_plan, pack_steps, snapshot_created, sparse_file, tempfile_dir,
    WorkspaceOverlay,
};
use crate::plan::{attempts, guarded, must, Plan, StepView};
use crate::run::{
    after, answered, attaches, fresh, law_base_loop_is_kept, law_cow_loop_is_kept,
    law_failure_releases, law_passed_means_succeeded, law_subnet_is_kept, law_subnet_is_known,
    law_success_does_all, law_trace_is_history, lemma_subnet_comes_from_its_step, ops_of, succeeds,
    trace, Run,
};
use crate::text::{cat, decimal, join_path, joined};
use crate::verdict::SLACK_MB;
use crate::vm::{
    boot_calls, boot_plan, destroy_plan, destroy_steps, launch_plan, launch_steps, law_boot_calls,
    law_launch_releases, law_resource_names, law_restore_calls, law_snapshot_calls,
    lemma_launch_ops, lemma_launch_starts_one_process, mac, resources_of, restore_calls,
    restore_plan, snapshot_calls, snapshot_plan, socket_path, starts_one_process, vm_release_list,
    vm_release_ops, FirecrackerVm, Resources, ResourcesView,
};
use vstd::prelude::*;
use vstd::string::*;
use vstd::utf8::*;

verus! {

/// How long a fresh VM is given to boot before its supervisor is asked for, in milliseconds.
pub const SETTLE_MS: u64 = 3000;

/// The id under which the base snapshot is built.
pub const SNAPSHOT_BUILD_ID: &'static str = "snapshot-build";

/// Configuration for the Firecracker runtime on a gateway node.
#[derive(Debug)]
pub struct FirecrackerRuntimeConfig {
    /// Path to the `firecracker` binary.
    pub binary_path: String,
    /// Path to the vmlinux kernel image.
    pub kernel_path: String,
    /// Path to the base rootfs ext4 image.
    pub rootfs_path: String,
    /// Directory for per-sandbox COW overlay files.
    pub overlay_dir: String,
    /// Path to the base VM snapshot file.
    pub snapshot_path: String,
    /// Path to the base VM memory snapshot file.
    pub snapshot_mem_path: String,
    /// Default vCPU count for new VMs.
    pub default_vcpu_count: u32,
    /// Default memory in MiB for new VMs.
    pub default_mem_mib: u32,
}

/// The content of a [`FirecrackerRuntimeConfig`].
pub struct ConfigView {
    pub binary_path: Seq<char>,
    pub kernel_path: Seq<char>,
    pub rootfs_path: Seq<char>,
    pub overlay_dir: Seq<char>,
    pub snapshot_path: Seq<char>,
    pub snapshot_mem_path: Seq<char>,
    pub default_vcpu_count: u32,
    pub default_mem_mib: u32,
}

impl View for FirecrackerRuntimeConfig {
    type V = ConfigView;

    open spec fn view(&self) -> ConfigView {
        ConfigView {
            binary_path: self.binary_path@,
            kernel_path: self.kernel_path@,
            rootfs_path: self.rootfs_path@,
            overlay_dir: self.overlay_dir@,
            snapshot_path: self.snapshot_path@,
            snapshot_mem_path: self.snapshot_mem_path@,
            default_vcpu_count: self.default_vcpu_count,
            default_mem_mib: self.default_mem_mib,
        }
    }
}

impl Clone for FirecrackerRuntimeConfig {
    fn clone(&self) -> (res: Self)
        ensures
            res@ == self@,
    {
        FirecrackerRuntimeConfig {
            binary_path: self.binary_path.clone(),
            kernel_path: self.kernel_path.clone(),
            rootfs_path: self.rootfs_path.clone(),
            overlay_dir: self.overlay_dir.clone(),
            snapshot_path: self.snapshot_path.clone(),
            snapshot_mem_path: self.snapshot_mem_path.clone(),
            default_vcpu_count: self.default_vcpu_count,
            default_mem_mib: self.default_mem_mib,
        }
    }
}

impl Default for FirecrackerRuntimeConfig {
    fn default() -> (config: Self)
        ensures
            config@ == (ConfigView {
                binary_path: "/usr/local/bin/firecracker"@,
                kernel_path: "/var/lib/openshell/firecracker/vmlinux"@,
                rootfs_path: "/var/lib/openshell/firecracker/rootfs.ext4"@,
                overlay_dir: "/var/lib/openshell/firecracker/overlays"@,
                snapshot_path: "/var/lib/openshell/firecracker/base.snapshot"@,
                snapshot_mem_path: "/var/lib/openshell/firecracker/base.mem"@,
                default_vcpu_count: 2,
                default_mem_mib: 2048,
            }),
    {
        FirecrackerRuntimeConfig {
            binary_path: "/usr/local/bin/firecracker".to_owned(),
            kernel_path: "/var/lib/openshell/firecracker/vmlinux".to_owned(),
            rootfs_path: "/var/lib/openshell/firecracker/rootfs.ext4".to_owned(),
            overlay_dir: "/var/lib/openshell/firecracker/overlays".to_owned(),
            snapshot_path: "/var/lib/openshell/firecracker/base.snapshot".to_owned(),
            snapshot_mem_path: "/var/lib/openshell/firecracker/base.mem".to_owned(),
            default_vcpu_count: 2,
            default_mem_mib: 2048,
        }
    }
}

/// The path of a sandbox's packed workspace.
pub open spec fn workspace_base(overlay_dir: Seq<char>, sandbox_id: Seq<char>) -> Seq<char> {
    joined(overlay_dir, short(sandbox_id) + "-ws-base.img"@)
}

/// Makes the workspace image of a new sandbox: a given directory, by way of a mount point, at its
/// size and some slack, or else an empty image of the slack alone.
pub open spec fn workspace_steps(
    workspace: Option<(Seq<char>, Seq<char>)>,
    base: Seq<char>,
) -> Seq<StepView> {
    match workspace {
        Some((dir, mount_dir)) => seq![must(OpView::MeasureDir { path: dir })] + pack_steps(
            dir,
            base,
            ArgView::PackedSize,
            mount_dir,
        ),
        None => seq![
            must(sparse_file(base, ArgView::Text(size_arg(SLACK_MB)))),
            must(make_ext4(base)),
        ],
    }
}

/// Creates a sandbox: its workspace image is made, the overlay made on it, and the VM restored
/// from the base snapshot. `workspace` is a directory and a mount point. An id that cannot name
/// host resources gets no further than the overlay directory.
pub open spec fn create_sandbox_steps(
    config: ConfigView,
    sandbox_id: Seq<char>,
    workspace: Option<(Seq<char>, Seq<char>)>,
    temp_dir: Seq<char>,
) -> Seq<StepView> {
    let base = workspace_base(config.overlay_dir, sandbox_id);
    let res = resources_of(sandbox_id, config.overlay_dir, temp_dir);
    let dir = seq![must(OpView::MakeDir { path: config.overlay_dir })];
    if has_short(sandbox_id) {
        dir + workspace_steps(workspace, base) + overlay_create_steps(res.dm, res.cow, base)
            + launch_steps(
            res,
            config.binary_path,
            restore_calls(res, sandbox_id, config.snapshot_path, config.snapshot_mem_path),
        )
    } else {
        dir
    }
}

/// Waits for a fresh VM: it is given time to boot, and then its supervisor has to get ready.
pub open spec fn ready_steps() -> Seq<StepView> {
    seq![
        must(OpView::Sleep { millis: SETTLE_MS }),
        must(OpView::StartClock),
        must(OpView::AwaitSupervisor),
    ]
}

/// Builds the base snapshot: a VM is booted fresh on an overlay of the rootfs, waited for until
/// its supervisor is ready, paused and written, and destroyed.
pub open spec fn build_base_snapshot_steps(config: ConfigView, temp_dir: Seq<char>) -> Seq<
    StepView,
> {
    let id = SNAPSHOT_BUILD_ID@;
    let res = resources_of(id, config.overlay_dir, temp_dir);
    seq![must(OpView::MakeDir { path: config.overlay_dir })] + overlay_create_steps(
        res.dm,
        res.cow,
        config.rootfs_path,
    ) + launch_steps(
        res,
        config.binary_path,
        boot_calls(
            res,
            id,
            config.default_vcpu_count,
            config.default_mem_mib,
            config.kernel_path,
            config.rootfs_path,
        ),
    ) + guarded(
        ready_steps() + snapshot_calls(
            res.socket,
            config.snapshot_path,
            config.snapshot_mem_path,
        ),
        vm_release_ops(res),
    ) + destroy_steps(res, None)
}

proof fn lemma_build_id_has_short()
    ensures
        has_short(SNAPSHOT_BUILD_ID@),
{
    reveal_strlit("snapshot-build");
    law_short_of_ascii(SNAPSHOT_BUILD_ID@);
}

/// Gateway-level Firecracker runtime manager.
#[derive(Debug)]
pub struct FirecrackerRuntime {
    config: FirecrackerRuntimeConfig,
}

impl View for FirecrackerRuntime {
    type V = ConfigView;

    closed spec fn view(&self) -> ConfigView {
        self.config@
    }
}

impl FirecrackerRuntime {
    /// A runtime with the given configuration.
    pub fn new(config: FirecrackerRuntimeConfig) -> (runtime: Self)
        ensures
            runtime@ == config@,
    {
        Self { config }
    }

    /// Builds the base snapshot from which all sandboxes are restored.
    ///
    /// This is called once during gateway setup (or when the rootfs is updated). It boots a
    /// fresh VM, waits for the sandbox supervisor to be ready, snapshots it, and tears it down.
    pub fn build_base_snapshot(&self, temp_dir: &str) -> (run: Run)
        ensures
            run@ == fresh(build_base_snapshot_steps(self@, temp_dir@), no_facts()),
            run@.valid(),
    {
        proof {
            lemma_build_id_has_short();
        }
        let config = &self.config;
        let res = Resources::of(SNAPSHOT_BUILD_ID, config.overlay_dir.as_str(), temp_dir);
        let dir = Plan::new().must(Op::MakeDir { path: config.overlay_dir.clone() });
        assert(dir@ =~= seq![must(OpView::MakeDir { path: config.overlay_dir@ })]);
        let overlay = overlay_create_plan(
            res.dm.as_str(),
            res.cow.as_str(),
            config.rootfs_path.as_str(),
        );
        let calls = boot_plan(
            &res,
            SNAPSHOT_BUILD_ID,
            config.default_vcpu_count,
            config.default_mem_mib,
            config.kernel_path.as_str(),
            config.rootfs_path.as_str(),
        );
        let launch = launch_plan(&res, config.binary_path.as_str(), calls);
        let ready = Plan::new().must(Op::Sleep { millis: SETTLE_MS }).must(Op::StartClock).must(
            Op::AwaitSupervisor,
        );
        assert(ready@ =~= ready_steps());
        let snapshot = ready.followed_by(
            snapshot_plan(
                res.socket.as_str(),
                config.snapshot_path.as_str(),
                config.snapshot_mem_path.as_str(),
            ),
        ).guarded(&vm_release_list(&res));
        Run::new(
            dir.followed_by(overlay).followed_by(launch).followed_by(snapshot).followed_by(
                destroy_plan(&res, None),
            ),
            Facts::none(),
        )
    }

    /// Creates a new sandbox VM restored from the base snapshot. Where `workspace_dir` is given
    /// it is packed by way of a mount point at `mount_dir`; else the workspace is empty.
    ///
    /// Where the first eight bytes of `sandbox_id` are no whole characters, the run only makes
    /// the overlay directory, and [`Self::sandbox_vm`] gives no VM.
    pub fn create_sandbox_at(
        &self,
        sandbox_id: &str,
        workspace_dir: Option<&str>,
        temp_dir: &str,
        mount_dir: &str,
    ) -> (run: Run)
        ensures
            run@ == fresh(
                create_sandbox_steps(
                    self@,
                    sandbox_id@,
                    match workspace_dir {
                        Some(dir) => Some((dir@, mount_dir@)),
                        None => None,
                    },
                    temp_dir@,
                ),
                no_facts(),
            ),
            run@.valid(),
    {
        let config = &self.config;
        let overlay_dir = config.overlay_dir.as_str();
        let dir = Plan::new().must(Op::MakeDir { path: config.overlay_dir.clone() });
        assert(dir@ =~= seq![must(OpView::MakeDir { path: config.overlay_dir@ })]);
        if !has_short_id(sandbox_id) {
            return Run::new(dir, Facts::none());
        }
        let base = join_path(overlay_dir, cat(short_id(sandbox_id), "-ws-base.img").as_str());
        let res = Resources::of(sandbox_id, overlay_dir, temp_dir);
        let workspace = match workspace_dir {
            Some(src) => {
                let measure = Plan::new().must(Op::MeasureDir { path: src.to_owned() });
                assert(measure@ =~= seq![must(OpView::MeasureDir { path: src@ })]);
                measure.followed_by(pack_plan(src, base.as_str(), Arg::PackedSize, mount_dir))
            },
            None => empty_image_plan(base.as_str(), Arg::Text(size_text(SLACK_MB))),
        };
        let overlay = overlay_create_plan(res.dm.as_str(), res.cow.as_str(), base.as_str());
        let calls = restore_plan(
            &res,
            sandbox_id,
            config.snapshot_path.as_str(),
            config.snapshot_mem_path.as_str(),
        );
        let launch = launch_plan(&res, config.binary_path.as_str(), calls);
        Run::new(
            dir.followed_by(workspace).followed_by(overlay).followed_by(launch),
            Facts::none(),
        )
    }

    /// Creates a new sandbox VM restored from the base snapshot. Without a `workspace_dir` its
    /// workspace is empty.
    ///
    /// Where the first eight bytes of `sandbox_id` are no whole characters, the run only makes
    /// the overlay directory, and [`Self::sandbox_vm`] gives no VM.
    pub fn create_sandbox(
        &self,
        sandbox_id: &str,
        workspace_dir: Option<&str>,
        temp_dir: &str,
    ) -> (run: Run)
        ensures
            match workspace_dir {
                Some(dir) => exists|uuid: Seq<char>|
                    #[trigger] is_v4_text(uuid) && run@ == fresh(
                        create_sandbox_steps(
                            self@,
                            sandbox_id@,
                            Some((dir@, mount_dir(temp_dir@, uuid))),
                            temp_dir@,
                        ),
                        no_facts(),
                    ),
                None => run@ == fresh(
                    create_sandbox_steps(self@, sandbox_id@, None, temp_dir@),
                    no_facts(),
                ),
            },
            run@.valid(),
    {
        match workspace_dir {
            Some(src) => {
                let dir = tempfile_dir(temp_dir);
                self.create_sandbox_at(sandbox_id, Some(src), temp_dir, dir.as_str())
            },
            None => self.create_sandbox_at(sandbox_id, None, temp_dir, temp_dir),
        }
    }

    /// The VM of a sandbox that was created, from what the host told: `None` where no subnet
    /// was allocated, or the id cannot name host resources.
    pub fn sandbox_vm(&self, sandbox_id: &str, facts: &Facts, temp_dir: &str) -> (vm: Option<
        FirecrackerVm,
    >)
        requires
            facts@.sound(),
        ensures
            match vm {
                Some(vm) => {
                    &&& has_short(sandbox_id@)
                    &&& facts@.subnet == Some(vm.tap.subnet)
                    &&& vm.valid()
                    &&& vm.sandbox_id@ == sandbox_id@
                    &&& vm.overlay@ == overlay_of(
                        sandbox_id@,
                        self@.overlay_dir,
                        facts@.base_loop,
                        facts@.cow_loop,
                    )
                    &&& vm.holds() == resources_of(sandbox_id@, self@.overlay_dir, temp_dir@)
                },
                None => facts@.subnet is None || !has_short(sandbox_id@),
            },
    {
        if !has_short_id(sandbox_id) {
            return None;
        }
        match facts.subnet {
            Some(subnet) => {
                let overlay = WorkspaceOverlay::created(
                    sandbox_id,
                    self.config.overlay_dir.as_str(),
                    facts,
                );
                Some(FirecrackerVm::launched(sandbox_id, overlay, subnet, temp_dir))
            },
            None => None,
        }
    }
}

// ── Laws ─────────────────────────────────────────────────────────────────────

/// A sandbox that was created has a subnet, and so a VM.
pub proof fn law_created_sandbox_has_a_subnet(
    config: ConfigView,
    sandbox_id: Seq<char>,
    workspace: Option<(Seq<char>, Seq<char>)>,
    temp_dir: Seq<char>,
    events: Seq<EventView>,
)
    requires
        has_short(sandbox_id),
        ({
            let plan = create_sandbox_steps(config, sandbox_id, workspace, temp_dir);
            &&& answered(fresh(plan, no_facts()), events)
            &&& after(fresh(plan, no_facts()), events).over()
            &&& after(fresh(plan, no_facts()), events).outcome() is Ok
        }),
    ensures
        ({
            let plan = create_sandbox_steps(config, sandbox_id, workspace, temp_dir);
            after(fresh(plan, no_facts()), events).outcome()->Ok_0.subnet is Some
        }),
{
    let plan = create_sandbox_steps(config, sandbox_id, workspace, temp_dir);
    let base = workspace_base(config.overlay_dir, sandbox_id);
    let n = workspace_steps(workspace, base).len() as int;
    assert(plan[n + 7].op == OpView::AllocateSubnet);
    law_trace_is_history(plan, no_facts(), events);
    law_subnet_is_known(plan, no_facts(), events, n + 7);
}

/// A sandbox without a workspace directory is created over an empty image: up to the overlay the
/// run makes the overlay directory, the image file and its filesystem, and nothing else.
pub proof fn law_no_workspace_copies_nothing(
    config: ConfigView,
    sandbox_id: Seq<char>,
    temp_dir: Seq<char>,
)
    requires
        has_short(sandbox_id),
    ensures
        ({
            let base = workspace_base(config.overlay_dir, sandbox_id);
            let res = resources_of(sandbox_id, config.overlay_dir, temp_dir);
            let ops = ops_of(create_sandbox_steps(config, sandbox_id, None, temp_dir));
            &&& ops.take(3) == seq![
                OpView::MakeDir { path: config.overlay_dir },
                sparse_file(base, ArgView::Text(size_arg(SLACK_MB))),
                make_ext4(base),
            ]
            &&& ops.subrange(3, 8) == ops_of(overlay_create_steps(res.dm, res.cow, base))
        }),
{
    let base = workspace_base(config.overlay_dir, sandbox_id);
    let res = resources_of(sandbox_id, config.overlay_dir, temp_dir);
    let ops = ops_of(create_sandbox_steps(config, sandbox_id, None, temp_dir));
    assert(ops.take(3) =~= seq![
        OpView::MakeDir { path: config.overlay_dir },
        sparse_file(base, ArgView::Text(size_arg(SLACK_MB))),
        make_ext4(base),
    ]);
    assert(ops.subrange(3, 8) =~= ops_of(overlay_create_steps(res.dm, res.cow, base)));
}

/// Sandboxes are restored from the base snapshot: the files that building it writes are those
/// that creating a sandbox loads, and the loaded VM does not run until it is resumed.
pub proof fn law_sandboxes_restore_the_base_snapshot(
    config: ConfigView,
    sandbox_id: Seq<char>,
    workspace: Option<(Seq<char>, Seq<char>)>,
    temp_dir: Seq<char>,
)
    requires
        has_short(sandbox_id),
    ensures
        ops_of(build_base_snapshot_steps(config, temp_dir)).contains(
            OpView::Call(
                Call {
                    socket_path: socket_path(temp_dir, SNAPSHOT_BUILD_ID@),
                    method: Method::Put,
                    path: "/snapshot/create"@,
                    body: Body::SnapshotCreate {
                        snapshot_type: "Full"@,
                        snapshot_path: config.snapshot_path,
                        mem_file_path: config.snapshot_mem_path,
                    },
                },
            ),
        ),
        ops_of(
            create_sandbox_steps(config, sandbox_id, workspace, temp_dir),
        ).contains(
            OpView::Call(
                Call {
                    socket_path: socket_path(temp_dir, sandbox_id),
                    method: Method::Put,
                    path: "/snapshot/load"@,
                    body: Body::SnapshotLoad {
                        snapshot_path: config.snapshot_path,
                        backend_type: "File"@,
                        backend_path: config.snapshot_mem_path,
                        enable_diff_snapshots: false,
                        resume_vm: false,
                    },
                },
            ),
        ),
{
    let build = build_base_snapshot_steps(config, temp_dir);
    let res = resources_of(SNAPSHOT_BUILD_ID@, config.overlay_dir, temp_dir);
    let taken = snapshot_calls(res.socket, config.snapshot_path, config.snapshot_mem_path);
    assert(ops_of(build)[29] == taken[1].op);
    let create = create_sandbox_steps(config, sandbox_id, workspace, temp_dir);
    let base = workspace_base(config.overlay_dir, sandbox_id);
    let own = resources_of(sandbox_id, config.overlay_dir, temp_dir);
    let calls = restore_calls(own, sandbox_id, config.snapshot_path, config.snapshot_mem_path);
    let n = workspace_steps(workspace, base).len() as int;
    assert(ops_of(create)[n + 19] == calls[0].op);
}

/// Once its VM has started, building the base snapshot ends with all that the VM holds released,
/// whether the snapshot was written or not.
pub proof fn law_building_tears_its_vm_down(
    config: ConfigView,
    temp_dir: Seq<char>,
    events: Seq<EventView>,
)
    requires
        answered(fresh(build_base_snapshot_steps(config, temp_dir), no_facts()), events),
        after(fresh(build_base_snapshot_steps(config, temp_dir), no_facts()), events).over(),
        after(fresh(build_base_snapshot_steps(config, temp_dir), no_facts()), events).at >= 25,
    ensures
        ({
            let res = resources_of(SNAPSHOT_BUILD_ID@, config.overlay_dir, temp_dir);
            let done = trace(fresh(build_base_snapshot_steps(config, temp_dir), no_facts()), events);
            let all = vm_release_ops(res);
            &&& done.len() > all.len()
            &&& done.skip(done.len() - all.len()) == all
        }),
{
    let plan = build_base_snapshot_steps(config, temp_dir);
    let start = fresh(plan, no_facts());
    let end = after(start, events);
    let res = resources_of(SNAPSHOT_BUILD_ID@, config.overlay_dir, temp_dir);
    let all = vm_release_ops(res);
    let taken = ready_steps() + snapshot_calls(
        res.socket,
        config.snapshot_path,
        config.snapshot_mem_path,
    );
    let destroyed = destroy_steps(res, None);
    let n = plan.len() as int;
    let done = trace(start, events);
    law_trace_is_history(plan, no_facts(), events);
    assert(n == 30 + destroyed.len());
    assert(destroyed.len() == 2 + all.len());
    assert forall|k: int| 30 <= k < n implies plan[k] == destroyed[k - 30] && !(
    #[trigger] plan[k]).required by {
        if k >= 32 {
            assert(destroyed[k - 30] == attempts(all)[k - 32]);
        }
    }
    if end.outcome() is Ok {
        law_success_does_all(plan, no_facts(), events);
        assert forall|j: int| 0 <= j < all.len() implies done[32 + j] == all[j] by {
            assert(plan[32 + j] == destroyed[2 + j]);
            assert(destroyed[2 + j] == attempts(all)[j]);
        }
        assert(done.skip(done.len() - all.len()) =~= all);
    } else {
        law_failure_releases(plan, no_facts(), events);
        assert(25 <= end.at < 30);
        assert(plan[end.at] == guarded(taken, all)[end.at - 25]);
        assert(taken[end.at - 25].release =~= Seq::empty());
        assert(plan[end.at].release =~= all);
        assert(done.skip(done.len() - all.len()) =~= all);
    }
}

/// No release of a step of building the base snapshot calls the API.
proof fn lemma_build_releases(config: ConfigView, temp_dir: Seq<char>, k: int, m: int)
    requires
        0 <= k < build_base_snapshot_steps(config, temp_dir).len(),
        0 <= m < build_base_snapshot_steps(config, temp_dir)[k].release.len(),
    ensures
        !(build_base_snapshot_steps(config, temp_dir)[k].release[m] is Call),
{
    let plan = build_base_snapshot_steps(config, temp_dir);
    let res = resources_of(SNAPSHOT_BUILD_ID@, config.overlay_dir, temp_dir);
    let calls = boot_calls(
        res,
        SNAPSHOT_BUILD_ID@,
        config.default_vcpu_count,
        config.default_mem_mib,
        config.kernel_path,
        config.rootfs_path,
    );
    let all = vm_release_ops(res);
    let taken = ready_steps() + snapshot_calls(
        res.socket,
        config.snapshot_path,
        config.snapshot_mem_path,
    );
    let destroyed = destroy_steps(res, None);
    assert(forall|i: int| 0 <= i < all.len() ==> !(#[trigger] all[i] is Call));
    if k < 6 {
        if k > 0 {
            let overlay = overlay_create_steps(res.dm, res.cow, config.rootfs_path);
            assert(plan[k] == overlay[k - 1]);
        }
    } else if k < 25 {
        assert(plan[k] == launch_steps(res, config.binary_path, calls)[k - 6]);
        law_launch_releases(res, config.binary_path, calls, k - 6);
    } else if k < 30 {
        assert(plan[k] == guarded(taken, all)[k - 25]);
        assert(plan[k].release =~= all);
    } else {
        assert(plan[k] == destroyed[k - 30]);
        if k >= 32 {
            assert(destroyed[k - 30] == attempts(all)[k - 32]);
        } else {
            assert(plan[k].release =~= all);
        }
    }
}

/// Whether an operation pauses a VM or writes its snapshot.
pub open spec fn takes_snapshot(op: OpView) -> bool {
    op matches OpView::Call(call) && (call.body is SnapshotCreate || call.body
        == (Body::InstanceAction { action_type: "PauseVm"@ }))
}

/// In building the base snapshot nothing before the wait for the supervisor takes a snapshot.
proof fn lemma_snapshot_comes_late(config: ConfigView, temp_dir: Seq<char>, k: int)
    requires
        0 <= k < 28,
    ensures
        !takes_snapshot(build_base_snapshot_steps(config, temp_dir)[k].op),
        build_base_snapshot_steps(config, temp_dir).len() > 28,
        k == 27 ==> build_base_snapshot_steps(config, temp_dir)[k].op == OpView::AwaitSupervisor,
        k == 27 ==> build_base_snapshot_steps(config, temp_dir)[k].required,
{
    let plan = build_base_snapshot_steps(config, temp_dir);
    let res = resources_of(SNAPSHOT_BUILD_ID@, config.overlay_dir, temp_dir);
    let calls = boot_calls(
        res,
        SNAPSHOT_BUILD_ID@,
        config.default_vcpu_count,
        config.default_mem_mib,
        config.kernel_path,
        config.rootfs_path,
    );
    let launch = launch_steps(res, config.binary_path, calls);
    reveal_strlit("PauseVm");
    reveal_strlit("InstanceStart");
    assert("PauseVm"@.len() != "InstanceStart"@.len());
    lemma_launch_ops(res, config.binary_path, calls, 0);
    if 1 <= k < 6 {
        assert(plan[k] == overlay_create_steps(res.dm, res.cow, config.rootfs_path)[k - 1]);
    } else if 6 <= k < 25 {
        assert(plan[k] == launch[k - 6]);
        lemma_launch_ops(res, config.binary_path, calls, k - 6);
    } else if 25 <= k {
        assert(plan[k].op == ready_steps()[k - 25].op);
    }
}

/// The base snapshot is never taken of a VM whose supervisor is not ready: where building it has
/// paused the VM or written a snapshot, a look at the supervisor has found it ready before.
pub proof fn law_snapshot_is_of_a_ready_vm(
    config: ConfigView,
    temp_dir: Seq<char>,
    events: Seq<EventView>,
    j: int,
)
    requires
        answered(fresh(build_base_snapshot_steps(config, temp_dir), no_facts()), events),
        ({
            let done = trace(fresh(build_base_snapshot_steps(config, temp_dir), no_facts()), events);
            0 <= j < done.len() && takes_snapshot(done[j])
        }),
    ensures
        ({
            let start = fresh(build_base_snapshot_steps(config, temp_dir), no_facts());
            exists|i: int|
                0 <= i < events.len() && after(start, #[trigger] events.take(i)).due() == Some(
                    OpView::AwaitSupervisor,
                ) && (events[i] matches EventView::Polled { present, now } && present)
        }),
        trace(
            fresh(build_base_snapshot_steps(config, temp_dir), no_facts()),
            events,
        ).take(j).contains(OpView::AwaitSupervisor),
{
    let plan = build_base_snapshot_steps(config, temp_dir);
    let start = fresh(plan, no_facts());
    let end = after(start, events);
    let done = trace(start, events);
    law_trace_is_history(plan, no_facts(), events);
    lemma_snapshot_comes_late(config, temp_dir, 27);
    if end.phase is Releasing && j > end.at {
        assert(done[j] == plan[end.at].release[j - end.at - 1]);
        lemma_build_releases(config, temp_dir, end.at, j - end.at - 1);
    } else {
        assert(done[j] == plan[j].op);
        if j < 28 {
            lemma_snapshot_comes_late(config, temp_dir, j);
        }
    }
    assert(28 <= j <= end.at);
    law_passed_means_succeeded(plan, no_facts(), events, 27);
    let i = choose|i: int| #[trigger] succeeds(start, events, 27, i);
    assert(after(start, events.take(i)).due() == Some(OpView::AwaitSupervisor));
    assert(done.take(j)[27] == OpView::AwaitSupervisor);
}

/// Creating a sandbox acts on one subnet and one pair of loop devices: once they are known, all
/// that follows, the releases too, acts on the same.
pub proof fn law_creating_acts_on_what_it_was_told(
    config: ConfigView,
    sandbox_id: Seq<char>,
    workspace: Option<(Seq<char>, Seq<char>)>,
    temp_dir: Seq<char>,
    events: Seq<EventView>,
    n: int,
)
    requires
        has_short(sandbox_id),
        0 <= n <= events.len(),
        ({
            let start = fresh(
                create_sandbox_steps(config, sandbox_id, workspace, temp_dir),
                no_facts(),
            );
            let then = after(start, events.take(n));
            answered(start, events) && then.facts.subnet is Some
        }),
    ensures
        ({
            let start = fresh(
                create_sandbox_steps(config, sandbox_id, workspace, temp_dir),
                no_facts(),
            );
            let then = after(start, events.take(n)).facts;
            let end = after(start, events).facts;
            &&& end.subnet == then.subnet
            &&& end.base_loop == then.base_loop
            &&& end.cow_loop == then.cow_loop
        }),
{
    let plan = create_sandbox_steps(config, sandbox_id, workspace, temp_dir);
    let base = workspace_base(config.overlay_dir, sandbox_id);
    let res = resources_of(sandbox_id, config.overlay_dir, temp_dir);
    let calls = restore_calls(res, sandbox_id, config.snapshot_path, config.snapshot_mem_path);
    let launch = launch_steps(res, config.binary_path, calls);
    let packed = workspace_steps(workspace, base);
    let made = overlay_create_steps(res.dm, res.cow, base);
    let w = packed.len() as int;
    lemma_launch_ops(res, config.binary_path, calls, 0);
    assert forall|j: int| 0 <= j < plan.len() && j != w + 7 implies (#[trigger] plan[j]).op
        != OpView::AllocateSubnet by {
        if 1 <= j < w + 1 {
            assert(plan[j] == packed[j - 1]);
        } else if w + 1 <= j < w + 6 {
            assert(plan[j] == made[j - w - 1]);
        } else if j >= w + 6 {
            assert(plan[j] == launch[j - w - 6]);
            lemma_launch_ops(res, config.binary_path, calls, j - w - 6);
        }
    }
    assert forall|j: int| w + 7 < j < plan.len() implies !attaches(
        #[trigger] plan[j],
        LoopRole::Base,
    ) && !attaches(plan[j], LoopRole::Cow) by {
        assert(plan[j] == launch[j - w - 6]);
        lemma_launch_ops(res, config.binary_path, calls, j - w - 6);
    }
    lemma_subnet_comes_from_its_step(plan, no_facts(), events, n, w + 7);
    law_subnet_is_kept(plan, no_facts(), events, n, w + 7);
    law_base_loop_is_kept(plan, no_facts(), events, n, w + 7);
    law_cow_loop_is_kept(plan, no_facts(), events, n, w + 7);
}

/// A sandbox is put together from its own parts: an image in the overlay directory, made of the
/// workspace directory at its measured size, or empty and of 512 MiB; an overlay on that image; and
/// a VM on that overlay, restored by the configured binary from the configured snapshot.
pub proof fn law_sandbox_is_put_together(
    config: ConfigView,
    sandbox_id: Seq<char>,
    dir: Seq<char>,
    mount: Seq<char>,
    temp_dir: Seq<char>,
)
    requires
        has_short(sandbox_id),
    ensures
        ({
            let id = short(sandbox_id);
            let made = StepView {
                op: OpView::MakeDir { path: config.overlay_dir },
                required: true,
                release: Seq::empty(),
            };
            let image = joined(config.overlay_dir, id + "-ws-base.img"@);
            let res = ResourcesView {
                tap: "fc-tap-"@ + id,
                dm: "fc-ws-"@ + id,
                device: "/dev/mapper/fc-ws-"@ + id,
                cow: joined(config.overlay_dir, id + ".cow"@),
                socket: joined(temp_dir, "fc-"@ + id + ".sock"@),
            };
            let calls = restore_calls(
                res,
                sandbox_id,
                config.snapshot_path,
                config.snapshot_mem_path,
            );
            let vm = overlay_create_steps("fc-ws-"@ + id, res.cow, image) + launch_steps(
                res,
                config.binary_path,
                calls,
            );
            let packed = seq![
                StepView {
                    op: OpView::MeasureDir { path: dir },
                    required: true,
                    release: Seq::empty(),
                },
            ] + pack_steps(dir, image, ArgView::PackedSize, mount);
            let empty = create_sandbox_steps(config, sandbox_id, None, temp_dir);
            &&& create_sandbox_steps(config, sandbox_id, Some((dir, mount)), temp_dir) == seq![made]
                + packed + vm
            &&& empty.len() == 3 + vm.len()
            &&& empty[0] == made
            &&& empty[1].required && empty[2].required
            &&& empty[1].release.len() == 0 && empty[2].release.len() == 0
            &&& empty.skip(3) == vm
            &&& forall|facts: FactsView|
                #[trigger] asked(ops_of(empty), facts).take(3) == seq![
                    ActionView::CreateDirAll(config.overlay_dir),
                    command("truncate"@, seq!["-s"@, decimal(512) + "M"@, image]),
                    command("mkfs.ext4"@, seq!["-q"@, image]),
                ]
        }),
{
    let id = short(sandbox_id);
    law_resource_names(
        sandbox_id,
        config.overlay_dir,
        temp_dir,
        overlay_of(sandbox_id, config.overlay_dir, Seq::empty(), Seq::empty()),
    );
    let image = workspace_base(config.overlay_dir, sandbox_id);
    let res = resources_of(sandbox_id, config.overlay_dir, temp_dir);
    let calls = restore_calls(res, sandbox_id, config.snapshot_path, config.snapshot_mem_path);
    let made = must(OpView::MakeDir { path: config.overlay_dir });
    let vm = overlay_create_steps(res.dm, res.cow, image) + launch_steps(
        res,
        config.binary_path,
        calls,
    );
    let packed = seq![must(OpView::MeasureDir { path: dir })] + pack_steps(
        dir,
        image,
        ArgView::PackedSize,
        mount,
    );
    assert(create_sandbox_steps(config, sandbox_id, Some((dir, mount)), temp_dir) =~= seq![made]
        + packed + vm);
    let empty = create_sandbox_steps(config, sandbox_id, None, temp_dir);
    assert(empty.skip(3) =~= vm);
    let size = ArgView::Text(size_arg(SLACK_MB));
    assert forall|facts: FactsView|
        #[trigger] asked(ops_of(empty), facts).take(3) == seq![
            ActionView::CreateDirAll(config.overlay_dir),
            command("truncate"@, seq!["-s"@, decimal(512) + "M"@, image]),
            command("mkfs.ext4"@, seq!["-q"@, image]),
        ] by {
        assert(args_text(sparse_file(image, size)->Tool_args, facts) =~= seq![
            "-s"@,
            decimal(512) + "M"@,
            image,
        ]);
        assert(args_text(make_ext4(image)->Tool_args, facts) =~= seq!["-q"@, image]);
        assert(asked(ops_of(empty), facts).take(3) =~= seq![
            ActionView::CreateDirAll(config.overlay_dir),
            command("truncate"@, seq!["-s"@, decimal(512) + "M"@, image]),
            command("mkfs.ext4"@, seq!["-q"@, image]),
        ]);
    }
}

/// An id that cannot name host resources gets the overlay directory made, and nothing else.
pub proof fn law_unnamed_id_gets_no_sandbox(
    config: ConfigView,
    sandbox_id: Seq<char>,
    workspace: Option<(Seq<char>, Seq<char>)>,
    temp_dir: Seq<char>,
)
    requires
        !has_short(sandbox_id),
    ensures
        create_sandbox_steps(config, sandbox_id, workspace, temp_dir) == seq![
            StepView {
                op: OpView::MakeDir { path: config.overlay_dir },
                required: true,
                release: Seq::empty(),
            },
        ],
{
}

/// The steps of creating a sandbox end with those of its launch.
proof fn lemma_sandbox_launch(
    config: ConfigView,
    sandbox_id: Seq<char>,
    workspace: Option<(Seq<char>, Seq<char>)>,
    temp_dir: Seq<char>,
    k: int,
)
    requires
        has_short(sandbox_id),
        0 <= k < create_sandbox_steps(config, sandbox_id, workspace, temp_dir).len(),
    ensures
        ({
            let plan = create_sandbox_steps(config, sandbox_id, workspace, temp_dir);
            let res = resources_of(sandbox_id, config.overlay_dir, temp_dir);
            let calls = restore_calls(
                res,
                sandbox_id,
                config.snapshot_path,
                config.snapshot_mem_path,
            );
            let launch = launch_steps(res, config.binary_path, calls);
            let n = plan.len() - 17;
            &&& launch.len() == 17
            &&& n >= 8
            &&& k >= n ==> plan[k] == launch[k - n]
            &&& k < n ==> !(plan[k].op is Call) && !(plan[k].op is Spawn)
            &&& plan[n - 1].op == snapshot_created(res.dm)
        }),
{
    let plan = create_sandbox_steps(config, sandbox_id, workspace, temp_dir);
    let base = workspace_base(config.overlay_dir, sandbox_id);
    let res = resources_of(sandbox_id, config.overlay_dir, temp_dir);
    let calls = restore_calls(res, sandbox_id, config.snapshot_path, config.snapshot_mem_path);
    let made = overlay_create_steps(res.dm, res.cow, base);
    let packed = workspace_steps(workspace, base);
    let w = packed.len() as int;
    lemma_launch_ops(res, config.binary_path, calls, 0);
    assert(plan.len() == w + 6 + 17);
    assert(plan[w + 5] == made[4]);
    if 1 <= k < w + 1 {
        assert(plan[k] == packed[k - 1]);
    } else if w + 1 <= k < w + 6 {
        assert(plan[k] == made[k - w - 1]);
    }
}

/// A path in the overlay directory is never the path of a sandbox's snapshot device: the image of a
/// sandbox is not its drive.
proof fn lemma_device_is_not_the_base(overlay_dir: Seq<char>, sandbox_id: Seq<char>)
    requires
        has_short(sandbox_id),
    ensures
        "/dev/mapper/fc-ws-"@ + short(sandbox_id) != joined(
            overlay_dir,
            short(sandbox_id) + "-ws-base.img"@,
        ),
{
    reveal_strlit("/dev/mapper/fc-ws-");
    reveal_strlit("-ws-base.img");
    reveal_strlit("/");
    let id = short(sandbox_id);
    let device = "/dev/mapper/fc-ws-"@ + id;
    let suffix = "-ws-base.img"@;
    let name = id + suffix;
    let base = joined(overlay_dir, name);
    law_short_is_prefix(sandbox_id);
    let m = id.len() as int;
    let n = base.len() as int;
    assert(forall|i: int| 0 <= i < 12 ==> base[n - 12 + i] == #[trigger] suffix[i]);
    if device == base {
        assert(device.len() == 18 + m);
        lemma_few_characters(id);
        assert forall|i: int| 0 <= i < m implies '\0' <= #[trigger] id[i] <= '\u{7f}' by {
            assert(id[i] == device[n - m + i]);
            assert(device[n - m + i] == suffix[12 - m + i]);
        }
        assert(is_ascii_chars(id));
        is_ascii_chars_encode_utf8(id);
        assert(m == 8);
        assert(id[7] == suffix[11]);
        assert(base[n - 13] == id[7]);
        assert(device[n - 13] == 'c');
        assert(suffix[11] == 'g');
    }
}

/// Eight bytes are at most eight characters, and at least one.
proof fn lemma_few_characters(s: Seq<char>)
    requires
        encode_utf8(s).len() == 8,
    ensures
        1 <= s.len() <= 8,
{
    lemma_bytes_cover_characters(s);
}

proof fn lemma_bytes_cover_characters(s: Seq<char>)
    ensures
        s.len() <= encode_utf8(s).len(),
    decreases s.len(),
{
    if s.len() > 0 {
        lemma_bytes_cover_characters(s.drop_first());
    }
}

/// The guest of a sandbox writes to the sandbox's overlay and to nothing else: the one drive that is
/// attached is the writable device that `dmsetup` makes in the same run, and never the image that
/// the overlay lies on. The guest's network is the sandbox's tap, with the MAC of its id. The VM
/// resumes last.
pub proof fn law_workspace_drive_is_the_overlay(
    config: ConfigView,
    sandbox_id: Seq<char>,
    workspace: Option<(Seq<char>, Seq<char>)>,
    temp_dir: Seq<char>,
)
    requires
        has_short(sandbox_id),
    ensures
        ({
            let ops = ops_of(create_sandbox_steps(config, sandbox_id, workspace, temp_dir));
            let n = ops.len() as int;
            let name = "fc-ws-"@ + short(sandbox_id);
            let tap = "fc-tap-"@ + short(sandbox_id);
            let socket = joined(temp_dir, "fc-"@ + short(sandbox_id) + ".sock"@);
            let device = "/dev/mapper/fc-ws-"@ + short(sandbox_id);
            &&& n >= 25
            &&& ops[n - 18] == (OpView::Tool {
                task: "dmsetup create"@,
                program: "dmsetup"@,
                args: seq![
                    ArgView::Text("create"@),
                    ArgView::Text(name),
                    ArgView::Text("--table"@),
                    ArgView::SnapshotTable,
                ],
            })
            &&& ops[n - 3] == OpView::Call(
                Call {
                    socket_path: socket,
                    method: Method::Patch,
                    path: "/drives/workspace"@,
                    body: Body::Drive {
                        drive_id: "workspace"@,
                        path_on_host: device,
                        is_root_device: false,
                        is_read_only: false,
                    },
                },
            )
            &&& device == "/dev/mapper/"@ + name
            &&& ops[n - 2] == OpView::Call(
                Call {
                    socket_path: socket,
                    method: Method::Put,
                    path: "/network-interfaces/"@ + tap,
                    body: Body::NetworkInterface {
                        iface_id: tap,
                        host_dev_name: tap,
                        guest_mac: mac(sandbox_id),
                    },
                },
            )
            &&& ops[n - 1] == OpView::Call(
                Call {
                    socket_path: socket,
                    method: Method::Put,
                    path: "/actions"@,
                    body: Body::InstanceAction { action_type: "ResumeVm"@ },
                },
            )
            &&& forall|k: int|
                0 <= k < n && (#[trigger] ops[k]) is Call ==> k >= n - 4
            &&& forall|k: int|
                0 <= k < n && (#[trigger] ops[k]) is Call && ops[k]->Call_0.body is Drive
                    ==> ops[k]->Call_0.body->path_on_host != joined(
                    config.overlay_dir,
                    short(sandbox_id) + "-ws-base.img"@,
                )
        }),
{
    let plan = create_sandbox_steps(config, sandbox_id, workspace, temp_dir);
    let ops = ops_of(plan);
    let n = ops.len() as int;
    let overlay = overlay_of(sandbox_id, config.overlay_dir, Seq::empty(), Seq::empty());
    let res = resources_of(sandbox_id, config.overlay_dir, temp_dir);
    let calls = restore_calls(res, sandbox_id, config.snapshot_path, config.snapshot_mem_path);
    let launch = launch_steps(res, config.binary_path, calls);
    law_resource_names(sandbox_id, config.overlay_dir, temp_dir, overlay);
    law_restore_calls(res, sandbox_id, config.snapshot_path, config.snapshot_mem_path);
    lemma_device_is_not_the_base(config.overlay_dir, sandbox_id);
    reveal_strlit("/dev/mapper/");
    reveal_strlit("fc-ws-");
    reveal_strlit("/dev/mapper/fc-ws-");
    assert("/dev/mapper/fc-ws-"@ + short(sandbox_id) =~= "/dev/mapper/"@ + ("fc-ws-"@ + short(
        sandbox_id,
    )));
    lemma_sandbox_launch(config, sandbox_id, workspace, temp_dir, 0);
    assert forall|k: int| 0 <= k < n implies {
        &&& (#[trigger] ops[k]) is Call ==> k >= n - 4
        &&& k >= n - 4 ==> ops[k] == ops_of(calls)[k - (n - 4)]
    } by {
        lemma_sandbox_launch(config, sandbox_id, workspace, temp_dir, k);
        if k >= n - 17 {
            lemma_launch_ops(res, config.binary_path, calls, k - (n - 17));
        }
    }
    assert(ops[n - 18] == snapshot_created(res.dm));
    assert(ops[n - 4] == ops_of(calls)[0]);
    assert(ops[n - 3] == ops_of(calls)[1]);
    assert(ops[n - 2] == ops_of(calls)[2]);
    assert(ops[n - 1] == ops_of(calls)[3]);
}

/// Creating a sandbox starts one process: the configured firecracker binary, on the sandbox's
/// socket, where all calls go.
pub proof fn law_sandbox_starts_one_process(
    config: ConfigView,
    sandbox_id: Seq<char>,
    workspace: Option<(Seq<char>, Seq<char>)>,
    temp_dir: Seq<char>,
)
    requires
        has_short(sandbox_id),
    ensures
        ({
            let ops = ops_of(create_sandbox_steps(config, sandbox_id, workspace, temp_dir));
            starts_one_process(
                ops,
                ops.len() - 7,
                config.binary_path,
                joined(temp_dir, "fc-"@ + short(sandbox_id) + ".sock"@),
            )
        }),
{
    let plan = create_sandbox_steps(config, sandbox_id, workspace, temp_dir);
    let ops = ops_of(plan);
    let n = ops.len() as int;
    let overlay = overlay_of(sandbox_id, config.overlay_dir, Seq::empty(), Seq::empty());
    let res = resources_of(sandbox_id, config.overlay_dir, temp_dir);
    let calls = restore_calls(res, sandbox_id, config.snapshot_path, config.snapshot_mem_path);
    let launched = ops_of(launch_steps(res, config.binary_path, calls));
    law_resource_names(sandbox_id, config.overlay_dir, temp_dir, overlay);
    lemma_launch_starts_one_process(res, config.binary_path, calls);
    lemma_sandbox_launch(config, sandbox_id, workspace, temp_dir, 0);
    assert forall|k: int| 0 <= k < n implies {
        &&& k >= n - 17 ==> (#[trigger] ops[k]) == launched[k - (n - 17)]
        &&& k < n - 17 ==> !(ops[k] is Call) && !(ops[k] is Spawn)
    } by {
        lemma_sandbox_launch(config, sandbox_id, workspace, temp_dir, k);
    }
    assert(ops[n - 7] == launched[10] && ops[n - 9] == launched[8] && ops[n - 5] == launched[12]);
}

/// The base snapshot is built on resources of its own, named `snapshot`: an overlay of the
/// configured root image, a VM that is booted on it by the configured binary, with the configured
/// CPUs, memory, kernel and root image; after the wait it is snapshotted to the configured files
/// and destroyed, and whatever fails from the wait on brings the release of the VM.
pub proof fn law_base_snapshot_is_put_together(config: ConfigView, temp_dir: Seq<char>)
    ensures
        ({
            let res = ResourcesView {
                tap: "fc-tap-"@ + "snapshot"@,
                dm: "fc-ws-"@ + "snapshot"@,
                device: "/dev/mapper/fc-ws-"@ + "snapshot"@,
                cow: joined(config.overlay_dir, "snapshot"@ + ".cow"@),
                socket: joined(temp_dir, "fc-"@ + "snapshot"@ + ".sock"@),
            };
            let calls = boot_calls(
                res,
                "snapshot-build"@,
                config.default_vcpu_count,
                config.default_mem_mib,
                config.kernel_path,
                config.rootfs_path,
            );
            let waited = seq![
                StepView {
                    op: OpView::Sleep { millis: 3000 },
                    required: true,
                    release: Seq::empty(),
                },
                StepView { op: OpView::StartClock, required: true, release: Seq::empty() },
                StepView { op: OpView::AwaitSupervisor, required: true, release: Seq::empty() },
            ];
            build_base_snapshot_steps(config, temp_dir) == seq![
                StepView {
                    op: OpView::MakeDir { path: config.overlay_dir },
                    required: true,
                    release: Seq::empty(),
                },
            ] + overlay_create_steps(res.dm, res.cow, config.rootfs_path) + launch_steps(
                res,
                config.binary_path,
                calls,
            ) + guarded(
                waited + snapshot_calls(res.socket, config.snapshot_path, config.snapshot_mem_path),
                vm_release_ops(res),
            ) + destroy_steps(res, None)
        }),
{
    lemma_build_short();
    law_resource_names(
        SNAPSHOT_BUILD_ID@,
        config.overlay_dir,
        temp_dir,
        overlay_of(SNAPSHOT_BUILD_ID@, config.overlay_dir, Seq::empty(), Seq::empty()),
    );
}

/// The short form of the id under which the base snapshot is built.
proof fn lemma_build_short()
    ensures
        short(SNAPSHOT_BUILD_ID@) == "snapshot"@,
{
    reveal_strlit("snapshot-build");
    reveal_strlit("snapshot");
    law_short_of_ascii(SNAPSHOT_BUILD_ID@);
    assert(SNAPSHOT_BUILD_ID@.take(8) =~= "snapshot"@);
}

/// The VM of the base snapshot boots as it is configured: before its instance is started, and after
/// the process was started, it gets the configured CPUs and memory, the configured kernel with the
/// boot arguments, the configured root image as a read-only root drive, and the overlay's device as
/// a writable drive, all over its own socket. Nothing else is called before.
pub proof fn law_base_vm_boots_as_configured(config: ConfigView, temp_dir: Seq<char>)
    ensures
        ({
            let ops = ops_of(build_base_snapshot_steps(config, temp_dir));
            let socket = joined(temp_dir, "fc-"@ + "snapshot"@ + ".sock"@);
            let tap = "fc-tap-"@ + "snapshot"@;
            &&& ops.len() > 25
            &&& forall|k: int| 0 <= k < 19 ==> !((#[trigger] ops[k]) is Call)
            &&& ops[19] == OpView::Call(
                Call {
                    socket_path: socket,
                    method: Method::Put,
                    path: "/machine-config"@,
                    body: Body::MachineConfig {
                        vcpu_count: config.default_vcpu_count,
                        mem_size_mib: config.default_mem_mib,
                    },
                },
            )
            &&& ops[20] == OpView::Call(
                Call {
                    socket_path: socket,
                    method: Method::Put,
                    path: "/boot-source"@,
                    body: Body::BootSource {
                        kernel_image_path: config.kernel_path,
                        boot_args:
                            "console=ttyS0 reboot=k panic=1 pci=off ro root=/dev/vda init=/sbin/tini -- /opt/openshell/bin/openshell-sandbox"@,
                    },
                },
            )
            &&& ops[21] == OpView::Call(
                Call {
                    socket_path: socket,
                    method: Method::Put,
                    path: "/drives/rootfs"@,
                    body: Body::Drive {
                        drive_id: "rootfs"@,
                        path_on_host: config.rootfs_path,
                        is_root_device: true,
                        is_read_only: true,
                    },
                },
            )
            &&& ops[22] == OpView::Call(
                Call {
                    socket_path: socket,
                    method: Method::Put,
                    path: "/drives/workspace"@,
                    body: Body::Drive {
                        drive_id: "workspace"@,
                        path_on_host: "/dev/mapper/fc-ws-"@ + "snapshot"@,
                        is_root_device: false,
                        is_read_only: false,
                    },
                },
            )
            &&& ops[23] == OpView::Call(
                Call {
                    socket_path: socket,
                    method: Method::Put,
                    path: "/network-interfaces/"@ + tap,
                    body: Body::NetworkInterface {
                        iface_id: tap,
                        host_dev_name: tap,
                        guest_mac: mac("snapshot-build"@),
                    },
                },
            )
            &&& ops[24] == OpView::Call(
                Call {
                    socket_path: socket,
                    method: Method::Put,
                    path: "/actions"@,
                    body: Body::InstanceAction { action_type: "InstanceStart"@ },
                },
            )
        }),
{
    let plan = build_base_snapshot_steps(config, temp_dir);
    let ops = ops_of(plan);
    let id = SNAPSHOT_BUILD_ID@;
    lemma_build_short();
    law_resource_names(
        id,
        config.overlay_dir,
        temp_dir,
        overlay_of(id, config.overlay_dir, Seq::empty(), Seq::empty()),
    );
    let res = resources_of(id, config.overlay_dir, temp_dir);
    let calls = boot_calls(
        res,
        id,
        config.default_vcpu_count,
        config.default_mem_mib,
        config.kernel_path,
        config.rootfs_path,
    );
    law_boot_calls(
        res,
        id,
        config.default_vcpu_count,
        config.default_mem_mib,
        config.kernel_path,
        config.rootfs_path,
    );
    lemma_build_ops(config, temp_dir, 0);
    assert forall|k: int| 0 <= k < 19 implies !((#[trigger] ops[k]) is Call) by {
        lemma_build_ops(config, temp_dir, k);
        if k >= 6 {
            lemma_launch_ops(res, config.binary_path, calls, k - 6);
        }
    }
    assert forall|k: int| 19 <= k < 25 implies #[trigger] ops[k] == ops_of(calls)[k - 19] by {
        lemma_build_ops(config, temp_dir, k);
    }
}

/// Building the base snapshot starts one process: the configured firecracker binary, on the socket
/// of its VM, where all calls go.
pub proof fn law_base_vm_is_one_process(config: ConfigView, temp_dir: Seq<char>)
    ensures
        starts_one_process(
            ops_of(build_base_snapshot_steps(config, temp_dir)),
            16,
            config.binary_path,
            joined(temp_dir, "fc-"@ + "snapshot"@ + ".sock"@),
        ),
{
    let plan = build_base_snapshot_steps(config, temp_dir);
    let ops = ops_of(plan);
    let id = SNAPSHOT_BUILD_ID@;
    lemma_build_short();
    law_resource_names(
        id,
        config.overlay_dir,
        temp_dir,
        overlay_of(id, config.overlay_dir, Seq::empty(), Seq::empty()),
    );
    let res = resources_of(id, config.overlay_dir, temp_dir);
    let calls = boot_calls(
        res,
        id,
        config.default_vcpu_count,
        config.default_mem_mib,
        config.kernel_path,
        config.rootfs_path,
    );
    lemma_launch_starts_one_process(res, config.binary_path, calls);
    let launched = ops_of(launch_steps(res, config.binary_path, calls));
    lemma_build_ops(config, temp_dir, 0);
    assert forall|k: int| 6 <= k < 25 implies #[trigger] ops[k] == launched[k - 6] by {
        lemma_build_ops(config, temp_dir, k);
    }
    assert forall|k: int| 0 <= k < ops.len() && !(6 <= k < 25) implies !((
    #[trigger] ops[k]) is Spawn) && (ops[k] is Call ==> k > 18 && ops[k]->Call_0.socket_path
        == res.socket) by {
        lemma_build_ops(config, temp_dir, k);
    }
    assert(ops[16] == launched[10] && ops[14] == launched[8] && ops[18] == launched[12]);
}

/// The operations of building the base snapshot, part by part.
proof fn lemma_build_ops(config: ConfigView, temp_dir: Seq<char>, k: int)
    requires
        0 <= k < build_base_snapshot_steps(config, temp_dir).len(),
    ensures
        ({
            let op = build_base_snapshot_steps(config, temp_dir)[k].op;
            let res = resources_of(SNAPSHOT_BUILD_ID@, config.overlay_dir, temp_dir);
            let calls = boot_calls(
                res,
                SNAPSHOT_BUILD_ID@,
                config.default_vcpu_count,
                config.default_mem_mib,
                config.kernel_path,
                config.rootfs_path,
            );
            let launch = launch_steps(res, config.binary_path, calls);
            let taken = snapshot_calls(
                res.socket,
                config.snapshot_path,
                config.snapshot_mem_path,
            );
            &&& build_base_snapshot_steps(config, temp_dir).len() == 41
            &&& launch.len() == 19
            &&& 6 <= k < 25 ==> op == launch[k - 6].op
            &&& 19 <= k < 25 ==> op == calls[k - 19].op
            &&& 28 <= k < 30 ==> op == taken[k - 28].op
            &&& k < 6 || 25 <= k < 28 || k >= 30 ==> !(op is Call) && !(op is Spawn)
        }),
{
    let plan = build_base_snapshot_steps(config, temp_dir);
    let res = resources_of(SNAPSHOT_BUILD_ID@, config.overlay_dir, temp_dir);
    let calls = boot_calls(
        res,
        SNAPSHOT_BUILD_ID@,
        config.default_vcpu_count,
        config.default_mem_mib,
        config.kernel_path,
        config.rootfs_path,
    );
    let launch = launch_steps(res, config.binary_path, calls);
    let all = vm_release_ops(res);
    let taken = ready_steps() + snapshot_calls(
        res.socket,
        config.snapshot_path,
        config.snapshot_mem_path,
    );
    let destroyed = destroy_steps(res, None);
    lemma_launch_ops(res, config.binary_path, calls, 0);
    assert(all.len() == 9);
    assert(plan.len() == 41);
    if 1 <= k < 6 {
        assert(plan[k] == overlay_create_steps(res.dm, res.cow, config.rootfs_path)[k - 1]);
    } else if 6 <= k < 25 {
        assert(plan[k] == launch[k - 6]);
        lemma_launch_ops(res, config.binary_path, calls, k - 6);
    } else if 25 <= k < 30 {
        assert(plan[k].op == taken[k - 25].op);
    } else if k >= 30 {
        assert(plan[k] == destroyed[k - 30]);
        if k >= 32 {
            assert(destroyed[k - 30] == attempts(all)[k - 32]);
        }
    }
}

/// The base snapshot is of a paused VM: where building it has written a snapshot, the operation
/// directly before paused the VM behind the same socket, and that succeeded.
pub proof fn law_base_snapshot_is_of_a_paused_vm(
    config: ConfigView,
    temp_dir: Seq<char>,
    events: Seq<EventView>,
    j: int,
)
    requires
        ({
            let start = fresh(build_base_snapshot_steps(config, temp_dir), no_facts());
            let done = trace(start, events);
            &&& answered(start, events)
            &&& 0 <= j < done.len()
            &&& done[j] matches OpView::Call(call) && call.body is SnapshotCreate
        }),
    ensures
        ({
            let start = fresh(build_base_snapshot_steps(config, temp_dir), no_facts());
            let done = trace(start, events);
            let socket = joined(temp_dir, "fc-"@ + "snapshot"@ + ".sock"@);
            &&& j > 0
            &&& done[j] == OpView::Call(
                Call {
                    socket_path: socket,
                    method: Method::Put,
                    path: "/snapshot/create"@,
                    body: Body::SnapshotCreate {
                        snapshot_type: "Full"@,
                        snapshot_path: config.snapshot_path,
                        mem_file_path: config.snapshot_mem_path,
                    },
                },
            )
            &&& done[j - 1] == OpView::Call(
                Call {
                    socket_path: socket,
                    method: Method::Put,
                    path: "/actions"@,
                    body: Body::InstanceAction { action_type: "PauseVm"@ },
                },
            )
            &&& exists|i: int| #[trigger] succeeds(start, events, j - 1, i)
        }),
{
    let plan = build_base_snapshot_steps(config, temp_dir);
    let start = fresh(plan, no_facts());
    let end = after(start, events);
    let done = trace(start, events);
    let id = SNAPSHOT_BUILD_ID@;
    lemma_build_short();
    law_resource_names(
        id,
        config.overlay_dir,
        temp_dir,
        overlay_of(id, config.overlay_dir, Seq::empty(), Seq::empty()),
    );
    let res = resources_of(id, config.overlay_dir, temp_dir);
    let taken = snapshot_calls(res.socket, config.snapshot_path, config.snapshot_mem_path);
    law_snapshot_calls(res.socket, config.snapshot_path, config.snapshot_mem_path);
    assert(taken[0].op == ops_of(taken)[0] && taken[1].op == ops_of(taken)[1]);
    law_trace_is_history(plan, no_facts(), events);
    if end.phase is Releasing && j > end.at {
        assert(done[j] == plan[end.at].release[j - end.at - 1]);
        lemma_build_releases(config, temp_dir, end.at, j - end.at - 1);
    } else {
        assert(done[j] == plan[j].op);
        lemma_build_ops(config, temp_dir, j);
        if j < 28 {
            lemma_snapshot_comes_late(config, temp_dir, j);
        }
    }
    assert(j == 29 && end.at >= 29);
    lemma_build_ops(config, temp_dir, 28);
    assert(done[28] == plan[28].op);
    assert(plan[28].required) by {
        let all = vm_release_ops(res);
        let waited = ready_steps() + taken;
        assert(plan[28] == guarded(waited, all)[3]);
    }
    law_passed_means_succeeded(plan, no_facts(), events, 28);
}

/// What is said of a configuration is what it holds, each setting under its own name.
pub proof fn law_config_is_what_it_says(config: FirecrackerRuntimeConfig)
    ensures
        config@ == (ConfigView {
            binary_path: config.binary_path@,
            kernel_path: config.kernel_path@,
            rootfs_path: config.rootfs_path@,
            overlay_dir: config.overlay_dir@,
            snapshot_path: config.snapshot_path@,
            snapshot_mem_path: config.snapshot_mem_path@,
            default_vcpu_count: config.default_vcpu_count,
            default_mem_mib: config.default_mem_mib,
        }),
{
}

} // verus!
