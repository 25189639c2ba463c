//! dm-snapshot copy-on-write workspace overlays.
//!
//! Each sandbox gets a sparse writable snapshot on top of a read-only base ext4 image.
//! Individual sandbox writes never touch the base.
//!
//! Layout:
//!   `<overlay dir>/<id>.cow`    per-sandbox COW file
//!   `/dev/mapper/fc-ws-<id>`    writable snapshot device

use crate::event::{blockdev_result, losetup_result, EventView, OutcomeView};
use crate::facts::{
    arg_text, args_text, no_facts, size_arg, size_text, snapshot_table, Arg, ArgView, Args, Facts, FactsView,
};
use crate::host::{asked, command, op_action, ActionView, LoopRole, Op, OpView, ProgramView};
use crate::id::{has_short, short, short_id};
use crate::plan::{attempt, attempts, must, must_or, Ops, Plan, StepView};
use crate::run::{
    after, answered, fresh, law_failure_releases, law_success_does_all, law_trace_is_history, ops_of,
    trace, Run,
};
use crate::text::{cat, decimal, join_path, joined};
use vstd::prelude::*;
use vstd::string::*;

verus! {

/// The size of a COW backing file, which is sparse, in MiB.
pub const COW_SIZE_MB: u64 = 2048;

// ── Mount points ─────────────────────────────────────────────────────────────

/// Whether `s` is the text of a random UUID: 36 characters in five groups of lower-case
/// hexadecimal digits, of version 4 and the RFC variant.
pub open spec fn is_v4_text(s: Seq<char>) -> bool {
    &&& s.len() == 36
    &&& forall|i: int|
        0 <= i < 36 ==> {
            let c = #[trigger] s[i];
            if i == 8 || i == 13 || i == 18 || i == 23 {
                c == '-'
            } else if i == 14 {
                c == '4'
            } else if i == 19 {
                c == '8' || c == '9' || c == 'a' || c == 'b'
            } else {
                '0' <= c <= '9' || 'a' <= c <= 'f'
            }
        }
}

/// `uuid::Uuid::new_v4` and the text that its `Display` writes: a hyphenated version 4 UUID in
/// lower case. Which one is left to chance. Like that function, it panics where the operating
/// system gives no random bytes.
#[verifier::external_body]
fn random_uuid() -> (text: String)
    ensures
        is_v4_text(text@),
{
    uuid::Uuid::new_v4().to_string()
}

/// The directory under `temp_dir` that a UUID names.
pub open spec fn mount_dir(temp_dir: Seq<char>, uuid: Seq<char>) -> Seq<char> {
    joined(temp_dir, "fc-mount-"@ + uuid)
}

/// The directory under `temp_dir` that `uuid` names.
pub fn mount_dir_text(temp_dir: &str, uuid: &str) -> (path: String)
    ensures
        path@ == mount_dir(temp_dir@, uuid@),
{
    join_path(temp_dir, cat("fc-mount-", uuid).as_str())
}

/// A directory under `temp_dir` with a random name.
pub fn tempfile_dir(temp_dir: &str) -> (path: String)
    ensures
        exists|uuid: Seq<char>|
            #[trigger] is_v4_text(uuid) && path@ == mount_dir(temp_dir@, uuid),
{
    let uuid = random_uuid();
    mount_dir_text(temp_dir, uuid.as_str())
}

// ── Disk operations ──────────────────────────────────────────────────────────

/// Makes the file at `path` of the given size, without writing to it.
pub open spec fn sparse_file(path: Seq<char>, size: ArgView) -> OpView {
    OpView::Tool {
        task: "truncate"@,
        program: "truncate"@,
        args: seq![ArgView::Text("-s"@), size, ArgView::Text(path)],
    }
}

/// Makes an ext4 filesystem in the file at `path`.
pub open spec fn make_ext4(path: Seq<char>) -> OpView {
    OpView::Tool {
        task: "mkfs.ext4"@,
        program: "mkfs.ext4"@,
        args: seq![ArgView::Text("-q"@), ArgView::Text(path)],
    }
}

/// Mounts the image file at `image`.
pub open spec fn mount_image(image: Seq<char>, dir: Seq<char>) -> OpView {
    OpView::Tool {
        task: "mount"@,
        program: "mount"@,
        args: seq![
            ArgView::Text("-o"@),
            ArgView::Text("loop"@),
            ArgView::Text(image),
            ArgView::Text(dir),
        ],
    }
}

/// Mounts a block device.
pub open spec fn mount_device(device: Seq<char>, dir: Seq<char>) -> OpView {
    OpView::Tool {
        task: "mount"@,
        program: "mount"@,
        args: seq![ArgView::Text(device), ArgView::Text(dir)],
    }
}

/// Copies what is in the directory `from` into the directory `to`, for the given task.
pub open spec fn copy_contents(task: Seq<char>, from: Seq<char>, to: Seq<char>) -> OpView {
    OpView::Tool {
        task,
        program: "cp"@,
        args: seq![ArgView::Text("-a"@), ArgView::Text(from + "/."@), ArgView::Text(to)],
    }
}

/// Unmounts what is mounted at `dir`.
pub open spec fn unmount(dir: Seq<char>) -> OpView {
    OpView::Tool { task: "umount"@, program: "umount"@, args: seq![ArgView::Text(dir)] }
}

/// Detaches a loop device.
pub open spec fn loop_detached(device: ArgView) -> OpView {
    OpView::Tool {
        task: "losetup -d"@,
        program: "losetup"@,
        args: seq![ArgView::Text("-d"@), device],
    }
}

/// Makes the snapshot device `name` of the attached base and COW.
pub open spec fn snapshot_created(name: Seq<char>) -> OpView {
    OpView::Tool {
        task: "dmsetup create"@,
        program: "dmsetup"@,
        args: seq![
            ArgView::Text("create"@),
            ArgView::Text(name),
            ArgView::Text("--table"@),
            ArgView::SnapshotTable,
        ],
    }
}

/// Removes the snapshot device `name`.
pub open spec fn snapshot_removed(name: Seq<char>) -> OpView {
    OpView::Tool {
        task: "dmsetup remove"@,
        program: "dmsetup"@,
        args: seq![ArgView::Text("remove"@), ArgView::Text(name)],
    }
}

fn tool(task: &str, program: &str, args: Args) -> (op: Op)
    ensures
        op@ == (OpView::Tool { task: task@, program: program@, args: args@ }),
{
    Op::Tool { task: task.to_owned(), program: program.to_owned(), args }
}

/// The operation that makes the file at `path` of the given size, without writing to it.
pub fn truncate_sparse(path: &str, size: Arg) -> (op: Op)
    ensures
        op@ == sparse_file(path@, size@),
{
    let args = Args::new().text("-s").with(size).text(path);
    assert(args@ =~= sparse_file(path@, size@)->Tool_args);
    tool("truncate", "truncate", args)
}

fn make_ext4_op(path: &str) -> (op: Op)
    ensures
        op@ == make_ext4(path@),
{
    let args = Args::new().text("-q").text(path);
    assert(args@ =~= make_ext4(path@)->Tool_args);
    tool("mkfs.ext4", "mkfs.ext4", args)
}

fn mount_image_op(image: &str, dir: &str) -> (op: Op)
    ensures
        op@ == mount_image(image@, dir@),
{
    let args = Args::new().text("-o").text("loop").text(image).text(dir);
    assert(args@ =~= mount_image(image@, dir@)->Tool_args);
    tool("mount", "mount", args)
}

fn mount_device_op(device: &str, dir: &str) -> (op: Op)
    ensures
        op@ == mount_device(device@, dir@),
{
    let args = Args::new().text(device).text(dir);
    assert(args@ =~= mount_device(device@, dir@)->Tool_args);
    tool("mount", "mount", args)
}

fn copy_contents_op(task: &str, from: &str, to: &str) -> (op: Op)
    ensures
        op@ == copy_contents(task@, from@, to@),
{
    let args = Args::new().text("-a").text(cat(from, "/.").as_str()).text(to);
    assert(args@ =~= copy_contents(task@, from@, to@)->Tool_args);
    tool(task, "cp", args)
}

fn unmount_op(dir: &str) -> (op: Op)
    ensures
        op@ == unmount(dir@),
{
    let args = Args::new().text(dir);
    assert(args@ =~= unmount(dir@)->Tool_args);
    tool("umount", "umount", args)
}

/// The operation that detaches a loop device.
pub fn losetup_detach(device: Arg) -> (op: Op)
    ensures
        op@ == loop_detached(device@),
{
    let args = Args::new().text("-d").with(device);
    assert(args@ =~= loop_detached(device@)->Tool_args);
    tool("losetup -d", "losetup", args)
}

/// The operation that makes the snapshot device `name` of the attached base and COW.
pub fn dmsetup_create(name: &str) -> (op: Op)
    ensures
        op@ == snapshot_created(name@),
{
    let args = Args::new().text("create").text(name).text("--table").with(Arg::SnapshotTable);
    assert(args@ =~= snapshot_created(name@)->Tool_args);
    tool("dmsetup create", "dmsetup", args)
}

/// The operation that removes the snapshot device `name`.
pub fn dmsetup_remove(name: &str) -> (op: Op)
    ensures
        op@ == snapshot_removed(name@),
{
    let args = Args::new().text("remove").text(name);
    assert(args@ =~= snapshot_removed(name@)->Tool_args);
    tool("dmsetup remove", "dmsetup", args)
}

// ── Overlays ─────────────────────────────────────────────────────────────────

/// A dm-snapshot overlay for one sandbox's workspace drive.
#[derive(Debug)]
pub struct WorkspaceOverlay {
    /// dm-snapshot device name, e.g. "fc-ws-a1b2c3d4".
    pub dm_name: String,
    /// Block device path: /dev/mapper/fc-ws-<id>.
    pub device_path: String,
    /// COW backing file path.
    pub cow_path: String,
    /// Loop device for the base image (e.g. /dev/loop5).
    pub base_loop: String,
    /// Loop device for the COW file (e.g. /dev/loop6).
    pub cow_loop: String,
}

/// The content of a [`WorkspaceOverlay`].
pub struct OverlayView {
    pub dm_name: Seq<char>,
    pub device_path: Seq<char>,
    pub cow_path: Seq<char>,
    pub base_loop: Seq<char>,
    pub cow_loop: Seq<char>,
}

impl View for WorkspaceOverlay {
    type V = OverlayView;

    open spec fn view(&self) -> OverlayView {
        OverlayView {
            dm_name: self.dm_name@,
            device_path: self.device_path@,
            cow_path: self.cow_path@,
            base_loop: self.base_loop@,
            cow_loop: self.cow_loop@,
        }
    }
}

/// The overlay of a sandbox with the given loop devices.
pub open spec fn overlay_of(
    sandbox_id: Seq<char>,
    overlay_dir: Seq<char>,
    base_loop: Seq<char>,
    cow_loop: Seq<char>,
) -> OverlayView {
    OverlayView {
        dm_name: dm_name(sandbox_id),
        device_path: device_path(dm_name(sandbox_id)),
        cow_path: cow_path(overlay_dir, sandbox_id),
        base_loop,
        cow_loop,
    }
}

/// What is known of an overlay's loop devices alone.
pub open spec fn overlay_facts(overlay: OverlayView) -> FactsView {
    FactsView { base_loop: overlay.base_loop, cow_loop: overlay.cow_loop, ..no_facts() }
}

/// The name of a sandbox's snapshot device.
pub open spec fn dm_name(sandbox_id: Seq<char>) -> Seq<char> {
    "fc-ws-"@ + short(sandbox_id)
}

/// The path of the device-mapper device `name`.
pub open spec fn device_path(name: Seq<char>) -> Seq<char> {
    "/dev/mapper/"@ + name
}

/// The path of a sandbox's COW file.
pub open spec fn cow_path(overlay_dir: Seq<char>, sandbox_id: Seq<char>) -> Seq<char> {
    joined(overlay_dir, short(sandbox_id) + ".cow"@)
}

/// Makes a snapshot overlay: a sparse COW file, a read-only loop device for the base, a
/// writable one for the COW file, and the snapshot device over the whole of the base.
pub open spec fn overlay_create_steps(
    name: Seq<char>,
    cow_path: Seq<char>,
    base_img: Seq<char>,
) -> Seq<StepView> {
    seq![
        must(sparse_file(cow_path, ArgView::Text(size_arg(COW_SIZE_MB)))),
        must(OpView::AttachLoop { role: LoopRole::Base, path: base_img, read_only: true }),
        must(OpView::AttachLoop { role: LoopRole::Cow, path: cow_path, read_only: false }),
        must(OpView::SectorCount),
        must(snapshot_created(name)),
    ]
}

/// Does away with an overlay: the snapshot device, both loop devices and the COW file.
pub open spec fn overlay_destroy_ops(name: Seq<char>, cow_path: Seq<char>) -> Seq<OpView> {
    seq![
        snapshot_removed(name),
        loop_detached(ArgView::BaseLoop),
        loop_detached(ArgView::CowLoop),
        OpView::RemoveFile { path: cow_path },
    ]
}

/// Leaves a mount point: unmounts it and removes the directory.
pub open spec fn leave_mount_ops(mount_dir: Seq<char>) -> Seq<OpView> {
    seq![unmount(mount_dir), OpView::RemoveDir { path: mount_dir }]
}

/// Packs the directory `src` into a new ext4 image at `dest`. The mount point is left whether
/// the copy succeeds or not.
pub open spec fn pack_steps(
    src: Seq<char>,
    dest: Seq<char>,
    size: ArgView,
    mount_dir: Seq<char>,
) -> Seq<StepView> {
    seq![
        must(sparse_file(dest, size)),
        must(make_ext4(dest)),
        must(OpView::MakeDir { path: mount_dir }),
        must(mount_image(dest, mount_dir)),
        must_or(copy_contents("copy"@, src, mount_dir), leave_mount_ops(mount_dir)),
        attempt(unmount(mount_dir)),
        attempt(OpView::RemoveDir { path: mount_dir }),
    ]
}

/// Copies what is on a device back into the directory `dest`. The mount point is left whether
/// the copy succeeds or not.
pub open spec fn sync_back_steps(
    device: Seq<char>,
    dest: Seq<char>,
    mount_dir: Seq<char>,
) -> Seq<StepView> {
    seq![
        must(OpView::MakeDir { path: mount_dir }),
        must(mount_device(device, mount_dir)),
        must_or(copy_contents("sync back"@, mount_dir, dest), leave_mount_ops(mount_dir)),
        attempt(unmount(mount_dir)),
        attempt(OpView::RemoveDir { path: mount_dir }),
    ]
}

/// The name of a sandbox's snapshot device.
pub(crate) fn dm_name_text(sandbox_id: &str) -> (name: String)
    requires
        has_short(sandbox_id@),
    ensures
        name@ == dm_name(sandbox_id@),
{
    cat("fc-ws-", short_id(sandbox_id))
}

/// The path of the device-mapper device `name`.
pub(crate) fn device_path_text(name: &str) -> (path: String)
    ensures
        path@ == device_path(name@),
{
    cat("/dev/mapper/", name)
}

/// The path of a sandbox's COW file.
pub(crate) fn cow_path_text(overlay_dir: &str, sandbox_id: &str) -> (path: String)
    requires
        has_short(sandbox_id@),
    ensures
        path@ == cow_path(overlay_dir@, sandbox_id@),
{
    join_path(overlay_dir, cat(short_id(sandbox_id), ".cow").as_str())
}

/// The plan that makes an overlay.
pub(crate) fn overlay_create_plan(name: &str, cow_path: &str, base_img: &str) -> (plan: Plan)
    ensures
        plan@ == overlay_create_steps(name@, cow_path@, base_img@),
{
    Plan::new().must(truncate_sparse(cow_path, Arg::Text(size_text(COW_SIZE_MB)))).must(
        Op::AttachLoop { role: LoopRole::Base, path: base_img.to_owned(), read_only: true },
    ).must(
        Op::AttachLoop { role: LoopRole::Cow, path: cow_path.to_owned(), read_only: false },
    ).must(Op::SectorCount).must(dmsetup_create(name))
}

/// The operations that do away with an overlay.
pub(crate) fn overlay_destroy_list(name: &str, cow_path: &str) -> (ops: Ops)
    ensures
        ops@ == overlay_destroy_ops(name@, cow_path@),
{
    Ops::new().with(dmsetup_remove(name)).with(losetup_detach(Arg::BaseLoop)).with(
        losetup_detach(Arg::CowLoop),
    ).with(Op::RemoveFile { path: cow_path.to_owned() })
}

fn leave_mount_list(mount_dir: &str) -> (ops: Ops)
    ensures
        ops@ == leave_mount_ops(mount_dir@),
{
    Ops::new().with(unmount_op(mount_dir)).with(Op::RemoveDir { path: mount_dir.to_owned() })
}

/// The plan that makes an empty ext4 image.
pub(crate) fn empty_image_plan(dest: &str, size: Arg) -> (plan: Plan)
    ensures
        plan@ == seq![must(sparse_file(dest@, size@)), must(make_ext4(dest@))],
{
    Plan::new().must(truncate_sparse(dest, size)).must(make_ext4_op(dest))
}

/// The plan that packs a directory.
pub(crate) fn pack_plan(src: &str, dest: &str, size: Arg, mount_dir: &str) -> (plan: Plan)
    ensures
        plan@ == pack_steps(src@, dest@, size@, mount_dir@),
{
    Plan::new().must(truncate_sparse(dest, size)).must(make_ext4_op(dest)).must(
        Op::MakeDir { path: mount_dir.to_owned() },
    ).must(mount_image_op(dest, mount_dir)).must_or(
        copy_contents_op("copy", src, mount_dir),
        leave_mount_list(mount_dir),
    ).attempt(unmount_op(mount_dir)).attempt(Op::RemoveDir { path: mount_dir.to_owned() })
}

/// The plan that copies a device's contents back.
pub(crate) fn sync_back_plan(device: &str, dest: &str, mount_dir: &str) -> (plan: Plan)
    ensures
        plan@ == sync_back_steps(device@, dest@, mount_dir@),
{
    Plan::new().must(Op::MakeDir { path: mount_dir.to_owned() }).must(
        mount_device_op(device, mount_dir),
    ).must_or(copy_contents_op("sync back", mount_dir, dest), leave_mount_list(mount_dir)).attempt(
        unmount_op(mount_dir),
    ).attempt(Op::RemoveDir { path: mount_dir.to_owned() })
}

impl WorkspaceOverlay {
    /// Creates a new snapshot overlay for a sandbox.
    ///
    /// `base_img` must be a valid ext4 image. It is attached read-only.
    /// `overlay_dir` is where the per-sandbox COW file is stored.
    pub fn create(sandbox_id: &str, base_img: &str, overlay_dir: &str) -> (run: Run)
        requires
            has_short(sandbox_id@),
        ensures
            run@ == fresh(
                overlay_create_steps(
                    dm_name(sandbox_id@),
                    cow_path(overlay_dir@, sandbox_id@),
                    base_img@,
                ),
                no_facts(),
            ),
            run@.valid(),
    {
        Run::new(
            overlay_create_plan(
                dm_name_text(sandbox_id).as_str(),
                cow_path_text(overlay_dir, sandbox_id).as_str(),
                base_img,
            ),
            Facts::none(),
        )
    }

    /// The overlay of a sandbox, once it has been created and the host has told its loop
    /// devices.
    pub fn created(sandbox_id: &str, overlay_dir: &str, facts: &Facts) -> (overlay: WorkspaceOverlay)
        requires
            has_short(sandbox_id@),
        ensures
            overlay@ == overlay_of(
                sandbox_id@,
                overlay_dir@,
                facts@.base_loop,
                facts@.cow_loop,
            ),
    {
        let name = dm_name_text(sandbox_id);
        WorkspaceOverlay {
            device_path: device_path_text(name.as_str()),
            dm_name: name,
            cow_path: cow_path_text(overlay_dir, sandbox_id),
            base_loop: facts.base_loop.clone(),
            cow_loop: facts.cow_loop.clone(),
        }
    }

    /// What is known of this overlay's loop devices.
    pub(crate) fn facts(&self) -> (facts: Facts)
        ensures
            facts@ == overlay_facts(self@),
    {
        let mut facts = Facts::none();
        facts.base_loop = self.base_loop.clone();
        facts.cow_loop = self.cow_loop.clone();
        facts
    }

    /// Packs a host directory into an ext4 image, by way of a mount point at `mount_dir`.
    ///
    /// `size_mb` should be directory size + generous slack.
    pub fn pack_directory_at(src: &str, dest: &str, size_mb: u64, mount_dir: &str) -> (run: Run)
        ensures
            run@ == fresh(
                pack_steps(src@, dest@, ArgView::Text(size_arg(size_mb)), mount_dir@),
                no_facts(),
            ),
            run@.valid(),
    {
        Run::new(
            pack_plan(src, dest, Arg::Text(size_text(size_mb)), mount_dir),
            Facts::none(),
        )
    }

    /// Packs a host directory into an ext4 image, by way of a mount point under `temp_dir`.
    ///
    /// `size_mb` should be directory size + generous slack.
    pub fn pack_directory(src: &str, dest: &str, size_mb: u64, temp_dir: &str) -> (run: Run)
        ensures
            exists|uuid: Seq<char>|
                #[trigger] is_v4_text(uuid) && run@ == fresh(
                    pack_steps(
                        src@,
                        dest@,
                        ArgView::Text(size_arg(size_mb)),
                        mount_dir(temp_dir@, uuid),
                    ),
                    no_facts(),
                ),
            run@.valid(),
    {
        let dir = tempfile_dir(temp_dir);
        WorkspaceOverlay::pack_directory_at(src, dest, size_mb, dir.as_str())
    }

    /// Syncs changes from the overlay back to the host directory `dest`, by way of a mount
    /// point at `mount_dir`.
    pub fn sync_back_at(&self, dest: &str, mount_dir: &str) -> (run: Run)
        ensures
            run@ == fresh(
                sync_back_steps(self@.device_path, dest@, mount_dir@),
                overlay_facts(self@),
            ),
            run@.valid(),
    {
        Run::new(sync_back_plan(self.device_path.as_str(), dest, mount_dir), self.facts())
    }

    /// Syncs changes from the overlay back to the host directory `dest`, by way of a mount
    /// point under `temp_dir`.
    pub fn sync_back(&self, dest: &str, temp_dir: &str) -> (run: Run)
        ensures
            exists|uuid: Seq<char>|
                #[trigger] is_v4_text(uuid) && run@ == fresh(
                    sync_back_steps(self@.device_path, dest@, mount_dir(temp_dir@, uuid)),
                    overlay_facts(self@),
                ),
            run@.valid(),
    {
        let dir = tempfile_dir(temp_dir);
        self.sync_back_at(dest, dir.as_str())
    }

    /// Detaches the devices and removes the COW file. That this may fail does not matter.
    pub fn destroy(&self) -> (run: Run)
        ensures
            run@ == fresh(
                attempts(overlay_destroy_ops(self@.dm_name, self@.cow_path)),
                overlay_facts(self@),
            ),
            run@.valid(),
    {
        Run::new(
            Plan::new().attempt_all(
                &overlay_destroy_list(self.dm_name.as_str(), self.cow_path.as_str()),
            ),
            self.facts(),
        )
    }
}

// ── Laws ─────────────────────────────────────────────────────────────────────

/// Making an overlay attaches the base image read-only and the COW file writable, and attaches
/// nothing else.
pub proof fn law_base_is_attached_read_only(
    name: Seq<char>,
    cow_path: Seq<char>,
    base_img: Seq<char>,
    facts: FactsView,
    k: int,
)
    requires
        0 <= k < overlay_create_steps(name, cow_path, base_img).len(),
    ensures
        ({
            let op = overlay_create_steps(name, cow_path, base_img)[k].op;
            op matches OpView::AttachLoop { role, path, read_only } ==> match role {
                LoopRole::Base => op_action(op, facts) == ActionView::Capture(
                    ProgramView {
                        name: "losetup"@,
                        args: seq!["-f"@, "--show"@, "-r"@, base_img],
                    },
                ),
                LoopRole::Cow => op_action(op, facts) == ActionView::Capture(
                    ProgramView { name: "losetup"@, args: seq!["-f"@, "--show"@, cow_path] },
                ),
            }
        }),
{
}

/// The snapshot device is made of the two loop devices that `losetup` printed, the base as its
/// origin and the COW file for its changes, over as many sectors as `blockdev` printed.
pub proof fn law_snapshot_is_of_base_and_cow(
    name: Seq<char>,
    cow_path: Seq<char>,
    base_img: Seq<char>,
    facts: FactsView,
    truncated: EventView,
    base: EventView,
    cow: EventView,
    size: EventView,
)
    requires
        truncated matches EventView::Ran(OutcomeView::Exited { success, status }) && success,
        base matches EventView::Captured(output) && losetup_result(output) is Ok,
        cow matches EventView::Captured(output) && losetup_result(output) is Ok,
        size matches EventView::Captured(output) && blockdev_result(output) is Ok,
    ensures
        fresh(overlay_create_steps(name, cow_path, base_img), facts).next(truncated).next(base).next(
            cow,
        ).next(size).action() == Some(
            ActionView::Run(
                ProgramView {
                    name: "dmsetup"@,
                    args: seq![
                        "create"@,
                        name,
                        "--table"@,
                        snapshot_table(
                            blockdev_result(size->Captured_0)->Ok_0,
                            losetup_result(base->Captured_0)->Ok_0,
                            losetup_result(cow->Captured_0)->Ok_0,
                        ),
                    ],
                },
            ),
        ),
{
    let s0 = fresh(overlay_create_steps(name, cow_path, base_img), facts);
    let s1 = s0.next(truncated);
    let s2 = s1.next(base);
    let s3 = s2.next(cow);
    let s4 = s3.next(size);
    assert(s4.at == 4);
    let args = snapshot_created(name)->Tool_args;
    assert(args_text(args, s4.facts) =~= seq![
        "create"@,
        name,
        "--table"@,
        snapshot_table(
            blockdev_result(size->Captured_0)->Ok_0,
            losetup_result(base->Captured_0)->Ok_0,
            losetup_result(cow->Captured_0)->Ok_0,
        ),
    ]);
}

/// Once the image is mounted, packing leaves the mount point, however the copy ends.
pub proof fn law_packing_leaves_the_mount(
    src: Seq<char>,
    dest: Seq<char>,
    size: ArgView,
    mount_dir: Seq<char>,
    facts: FactsView,
    events: Seq<EventView>,
)
    requires
        facts.sound(),
        answered(fresh(pack_steps(src, dest, size, mount_dir), facts), events),
        after(fresh(pack_steps(src, dest, size, mount_dir), facts), events).over(),
        after(fresh(pack_steps(src, dest, size, mount_dir), facts), events).at > 3,
    ensures
        trace(fresh(pack_steps(src, dest, size, mount_dir), facts), events).skip(5)
            == leave_mount_ops(mount_dir),
{
    let plan = pack_steps(src, dest, size, mount_dir);
    let end = after(fresh(plan, facts), events);
    law_trace_is_history(plan, facts, events);
    if end.outcome() is Ok {
        law_success_does_all(plan, facts, events);
        assert(ops_of(plan).skip(5) =~= leave_mount_ops(mount_dir));
    } else {
        law_failure_releases(plan, facts, events);
        assert(end.at == 4);
        assert((ops_of(plan.take(5)) + leave_mount_ops(mount_dir)).skip(5) =~= leave_mount_ops(
            mount_dir,
        ));
    }
}

/// Once the device is mounted, syncing back leaves the mount point, however the copy ends.
pub proof fn law_syncing_leaves_the_mount(
    device: Seq<char>,
    dest: Seq<char>,
    mount_dir: Seq<char>,
    facts: FactsView,
    events: Seq<EventView>,
)
    requires
        facts.sound(),
        answered(fresh(sync_back_steps(device, dest, mount_dir), facts), events),
        after(fresh(sync_back_steps(device, dest, mount_dir), facts), events).over(),
        after(fresh(sync_back_steps(device, dest, mount_dir), facts), events).at > 1,
    ensures
        trace(fresh(sync_back_steps(device, dest, mount_dir), facts), events).skip(3)
            == leave_mount_ops(mount_dir),
{
    let plan = sync_back_steps(device, dest, mount_dir);
    let end = after(fresh(plan, facts), events);
    law_trace_is_history(plan, facts, events);
    if end.outcome() is Ok {
        law_success_does_all(plan, facts, events);
        assert(ops_of(plan).skip(3) =~= leave_mount_ops(mount_dir));
    } else {
        law_failure_releases(plan, facts, events);
        assert(end.at == 2);
        assert((ops_of(plan.take(3)) + leave_mount_ops(mount_dir)).skip(3) =~= leave_mount_ops(
            mount_dir,
        ));
    }
}

/// An overlay is named after its sandbox: the device `fc-ws-<id>`, found below `/dev/mapper/`, and
/// the file `<id>.cow` in the overlay directory. Its loop devices are those that it was made with.
pub proof fn law_overlay_names(
    sandbox_id: Seq<char>,
    overlay_dir: Seq<char>,
    base_loop: Seq<char>,
    cow_loop: Seq<char>,
    temp_dir: Seq<char>,
    uuid: Seq<char>,
)
    ensures
        dm_name(sandbox_id) == "fc-ws-"@ + short(sandbox_id),
        device_path(dm_name(sandbox_id)) == "/dev/mapper/fc-ws-"@ + short(sandbox_id),
        cow_path(overlay_dir, sandbox_id) == joined(overlay_dir, short(sandbox_id) + ".cow"@),
        overlay_of(sandbox_id, overlay_dir, base_loop, cow_loop) == (OverlayView {
            dm_name: "fc-ws-"@ + short(sandbox_id),
            device_path: "/dev/mapper/fc-ws-"@ + short(sandbox_id),
            cow_path: joined(overlay_dir, short(sandbox_id) + ".cow"@),
            base_loop,
            cow_loop,
        }),
        mount_dir(temp_dir, uuid) == joined(temp_dir, "fc-mount-"@ + uuid),
        ({
            let overlay = overlay_of(sandbox_id, overlay_dir, base_loop, cow_loop);
            overlay_facts(overlay).base_loop == base_loop && overlay_facts(overlay).cow_loop
                == cow_loop && overlay_facts(overlay).subnet is None
        }),
{
    reveal_strlit("fc-ws-");
    reveal_strlit("/dev/mapper/");
    reveal_strlit("/dev/mapper/fc-ws-");
    assert("/dev/mapper/"@ + "fc-ws-"@ =~= "/dev/mapper/fc-ws-"@);
    assert(device_path(dm_name(sandbox_id)) =~= "/dev/mapper/fc-ws-"@ + short(sandbox_id));
}

/// Making an overlay makes a sparse file of 2048 MiB, attaches the base read-only and that file
/// writable, asks for the size of the base's device, and makes the snapshot device over the whole
/// of the base, each of which must succeed. Doing away with it removes that device, detaches both
/// loop devices, and removes that file.
pub proof fn law_overlay_commands(
    name: Seq<char>,
    cow: Seq<char>,
    base_img: Seq<char>,
    facts: FactsView,
)
    ensures
        ({
            let made = overlay_create_steps(name, cow, base_img);
            let table = "0 "@ + decimal(facts.sectors as nat) + " snapshot "@ + facts.base_loop
                + " "@ + facts.cow_loop + " P 8"@;
            &&& asked(ops_of(made), facts) == seq![
                command("truncate"@, seq!["-s"@, decimal(2048) + "M"@, cow]),
                ActionView::Capture(
                    ProgramView {
                        name: "losetup"@,
                        args: seq!["-f"@, "--show"@, "-r"@, base_img],
                    },
                ),
                ActionView::Capture(
                    ProgramView { name: "losetup"@, args: seq!["-f"@, "--show"@, cow] },
                ),
                ActionView::Capture(
                    ProgramView { name: "blockdev"@, args: seq!["--getsz"@, facts.base_loop] },
                ),
                command("dmsetup"@, seq!["create"@, name, "--table"@, table]),
            ]
            &&& forall|k: int|
                0 <= k < made.len() ==> (#[trigger] made[k]).required && made[k].release
                    == Seq::<OpView>::empty()
            &&& made[1].op->AttachLoop_role == LoopRole::Base
            &&& made[2].op->AttachLoop_role == LoopRole::Cow
            &&& made[0].op->Tool_task == "truncate"@
            &&& made[4].op->Tool_task == "dmsetup create"@
            &&& asked(overlay_destroy_ops(name, cow), facts) == seq![
                command("dmsetup"@, seq!["remove"@, name]),
                command("losetup"@, seq!["-d"@, facts.base_loop]),
                command("losetup"@, seq!["-d"@, facts.cow_loop]),
                ActionView::RemoveFile(cow),
            ]
        }),
{
    let table = "0 "@ + decimal(facts.sectors as nat) + " snapshot "@ + facts.base_loop + " "@
        + facts.cow_loop + " P 8"@;
    let size = ArgView::Text(size_arg(COW_SIZE_MB));
    assert(args_text(sparse_file(cow, size)->Tool_args, facts) =~= seq![
        "-s"@,
        decimal(2048) + "M"@,
        cow,
    ]);
    assert(args_text(snapshot_created(name)->Tool_args, facts) =~= seq![
        "create"@,
        name,
        "--table"@,
        table,
    ]);
    assert(args_text(snapshot_removed(name)->Tool_args, facts) =~= seq!["remove"@, name]);
    assert(args_text(loop_detached(ArgView::BaseLoop)->Tool_args, facts) =~= seq![
        "-d"@,
        facts.base_loop,
    ]);
    assert(args_text(loop_detached(ArgView::CowLoop)->Tool_args, facts) =~= seq![
        "-d"@,
        facts.cow_loop,
    ]);
    assert(asked(ops_of(overlay_create_steps(name, cow, base_img)), facts) =~= seq![
        command("truncate"@, seq!["-s"@, decimal(2048) + "M"@, cow]),
        ActionView::Capture(
            ProgramView { name: "losetup"@, args: seq!["-f"@, "--show"@, "-r"@, base_img] },
        ),
        ActionView::Capture(
            ProgramView { name: "losetup"@, args: seq!["-f"@, "--show"@, cow] },
        ),
        ActionView::Capture(
            ProgramView { name: "blockdev"@, args: seq!["--getsz"@, facts.base_loop] },
        ),
        command("dmsetup"@, seq!["create"@, name, "--table"@, table]),
    ]);
    assert(asked(overlay_destroy_ops(name, cow), facts) =~= seq![
        command("dmsetup"@, seq!["remove"@, name]),
        command("losetup"@, seq!["-d"@, facts.base_loop]),
        command("losetup"@, seq!["-d"@, facts.cow_loop]),
        ActionView::RemoveFile(cow),
    ]);
}

/// Packing makes an ext4 image of the given size at `dest`, mounts it at the mount point, copies
/// all that is in `src` into it, and leaves the mount point. All but the leaving must succeed.
pub proof fn law_pack_commands(
    src: Seq<char>,
    dest: Seq<char>,
    size: ArgView,
    dir: Seq<char>,
    facts: FactsView,
)
    ensures
        ({
            let made = pack_steps(src, dest, size, dir);
            &&& asked(ops_of(made), facts) == seq![
                command("truncate"@, seq!["-s"@, arg_text(size, facts), dest]),
                command("mkfs.ext4"@, seq!["-q"@, dest]),
                ActionView::CreateDirAll(dir),
                command("mount"@, seq!["-o"@, "loop"@, dest, dir]),
                command("cp"@, seq!["-a"@, src + "/."@, dir]),
                command("umount"@, seq![dir]),
                ActionView::RemoveDirAll(dir),
            ]
            &&& forall|k: int| 0 <= k < 7 ==> ((#[trigger] made[k]).required <==> k < 5)
            &&& forall|k: int|
                0 <= k < 7 && k != 4 ==> (#[trigger] made[k]).release == Seq::<OpView>::empty()
            &&& asked(made[4].release, facts) == seq![
                command("umount"@, seq![dir]),
                ActionView::RemoveDirAll(dir),
            ]
            &&& made[0].op->Tool_task == "truncate"@
            &&& made[1].op->Tool_task == "mkfs.ext4"@
            &&& made[3].op->Tool_task == "mount"@
            &&& made[4].op->Tool_task == "copy"@
        }),
{
    assert(args_text(sparse_file(dest, size)->Tool_args, facts) =~= seq![
        "-s"@,
        arg_text(size, facts),
        dest,
    ]);
    assert(args_text(make_ext4(dest)->Tool_args, facts) =~= seq!["-q"@, dest]);
    assert(args_text(mount_image(dest, dir)->Tool_args, facts) =~= seq![
        "-o"@,
        "loop"@,
        dest,
        dir,
    ]);
    assert(args_text(copy_contents("copy"@, src, dir)->Tool_args, facts) =~= seq![
        "-a"@,
        src + "/."@,
        dir,
    ]);
    assert(args_text(unmount(dir)->Tool_args, facts) =~= seq![dir]);
    assert(asked(ops_of(pack_steps(src, dest, size, dir)), facts) =~= seq![
        command("truncate"@, seq!["-s"@, arg_text(size, facts), dest]),
        command("mkfs.ext4"@, seq!["-q"@, dest]),
        ActionView::CreateDirAll(dir),
        command("mount"@, seq!["-o"@, "loop"@, dest, dir]),
        command("cp"@, seq!["-a"@, src + "/."@, dir]),
        command("umount"@, seq![dir]),
        ActionView::RemoveDirAll(dir),
    ]);
    assert(asked(leave_mount_ops(dir), facts) =~= seq![
        command("umount"@, seq![dir]),
        ActionView::RemoveDirAll(dir),
    ]);
}

/// An image size is written in MiB: a given one as it is, that of a measured directory as it was
/// measured.
pub proof fn law_image_sizes(size_mb: u64, facts: FactsView)
    ensures
        arg_text(ArgView::Text(size_arg(size_mb)), facts) == decimal(size_mb as nat) + "M"@,
        arg_text(ArgView::PackedSize, facts) == decimal(facts.packed_mb as nat) + "M"@,
{
}

/// Syncing back mounts the device at the mount point, copies all that is on it into `dest`, and
/// leaves the mount point. All but the leaving must succeed.
pub proof fn law_sync_commands(
    device: Seq<char>,
    dest: Seq<char>,
    dir: Seq<char>,
    facts: FactsView,
)
    ensures
        ({
            let made = sync_back_steps(device, dest, dir);
            &&& asked(ops_of(made), facts) == seq![
                ActionView::CreateDirAll(dir),
                command("mount"@, seq![device, dir]),
                command("cp"@, seq!["-a"@, dir + "/."@, dest]),
                command("umount"@, seq![dir]),
                ActionView::RemoveDirAll(dir),
            ]
            &&& forall|k: int| 0 <= k < 5 ==> ((#[trigger] made[k]).required <==> k < 3)
            &&& forall|k: int|
                0 <= k < 5 && k != 2 ==> (#[trigger] made[k]).release == Seq::<OpView>::empty()
            &&& asked(made[2].release, facts) == seq![
                command("umount"@, seq![dir]),
                ActionView::RemoveDirAll(dir),
            ]
            &&& made[1].op->Tool_task == "mount"@
            &&& made[2].op->Tool_task == "sync back"@
        }),
{
    assert(args_text(mount_device(device, dir)->Tool_args, facts) =~= seq![device, dir]);
    assert(args_text(copy_contents("sync back"@, dir, dest)->Tool_args, facts) =~= seq![
        "-a"@,
        dir + "/."@,
        dest,
    ]);
    assert(args_text(unmount(dir)->Tool_args, facts) =~= seq![dir]);
    assert(asked(ops_of(sync_back_steps(device, dest, dir)), facts) =~= seq![
        ActionView::CreateDirAll(dir),
        command("mount"@, seq![device, dir]),
        command("cp"@, seq!["-a"@, dir + "/."@, dest]),
        command("umount"@, seq![dir]),
        ActionView::RemoveDirAll(dir),
    ]);
    assert(asked(leave_mount_ops(dir), facts) =~= seq![
        command("umount"@, seq![dir]),
        ActionView::RemoveDirAll(dir),
    ]);
}

/// What is said of an overlay is what it holds, each part under its own name.
pub proof fn law_overlay_is_what_it_says(overlay: WorkspaceOverlay)
    ensures
        overlay@ == (OverlayView {
            dm_name: overlay.dm_name@,
            device_path: overlay.device_path@,
            cow_path: overlay.cow_path@,
            base_loop: overlay.base_loop@,
            cow_loop: overlay.cow_loop@,
        }),
{
}

} // verus!
