//! Whole runs, driven by a scripted host.

use openshell_firecracker::api::Exchange;
use openshell_firecracker::error::FirecrackerError;
use openshell_firecracker::event::{Event, Outcome, Output};
use openshell_firecracker::facts::Facts;
use openshell_firecracker::host::Action;
use openshell_firecracker::id::{has_short_id, short_id};
use openshell_firecracker::overlay::{mount_dir_text, tempfile_dir, WorkspaceOverlay};
use openshell_firecracker::routing::{VmRouting, PROXY_PORT};
use openshell_firecracker::run::Run;
use openshell_firecracker::size::{DirEntry, MIB};
use openshell_firecracker::subnet::{Ipv4Addr, SubnetPool, VmSubnet};
use openshell_firecracker::tap::TapDevice;
use openshell_firecracker::vm::{derive_mac, socket_path_text, FirecrackerVm, FreshBootConfig};
use openshell_firecracker::{FirecrackerRuntime, FirecrackerRuntimeConfig};

const ID: &str = "a1b2c3d4-0000";

/// An action as one line.
fn show(action: &Action) -> String {
    match action {
        Action::Run(p) => format!("{} {}", p.name, p.args.join(" ")),
        Action::Capture(p) => format!("capture {} {}", p.name, p.args.join(" ")),
        Action::Spawn(p) => format!("spawn {} {}", p.name, p.args.join(" ")),
        Action::CreateDirAll(path) => format!("mkdir {}", path),
        Action::RemoveFile(path) => format!("rm {}", path),
        Action::RemoveDirAll(path) => format!("rmdir {}", path),
        Action::CheckExists(path) => format!("exists {}", path),
        Action::ReadClock => "clock".to_string(),
        Action::Poll(path) => format!("poll {}", path),
        Action::PollSupervisor(Some(guest)) => format!("supervisor {}", guest.text()),
        Action::PollSupervisor(None) => "supervisor".to_string(),
        Action::Send(call) => format!("{} {} via {}", call.method.name(), call.path, call.socket_path),
        Action::Sleep(millis) => format!("sleep {}", millis),
        Action::Kill => "kill".to_string(),
        Action::StartKill => "start kill".to_string(),
        Action::AllocateSubnet => "allocate".to_string(),
        Action::ListDir(path) => format!("list {}", path),
    }
}

/// What a host answers on which all goes well.
fn good(action: &Action, pool: &mut SubnetPool) -> Event {
    match action {
        Action::Run(_) => Event::Ran(Outcome::Exited {
            success: true,
            status: "exit status: 0".to_string(),
        }),
        Action::Capture(p) => {
            let stdout: &[u8] = if p.name == "blockdev" {
                b"4096\n"
            } else if p.args.contains(&"-r".to_string()) {
                b"/dev/loop5\n"
            } else {
                b"/dev/loop6\n"
            };
            Event::Captured(Output::Exited { success: true, stdout: stdout.to_vec(), stderr: vec![] })
        }
        Action::CheckExists(_) => Event::Presence(true),
        Action::ReadClock => Event::Clock(1_000),
        Action::Poll(_) => Event::Polled { present: true, now: 2_000 },
        Action::PollSupervisor(_) => Event::Polled { present: true, now: 2_000 },
        Action::Send(_) => Event::Exchanged(Exchange::Reply(b"HTTP/1.1 204 No Content\r\n\r\n".to_vec())),
        Action::AllocateSubnet => Event::Subnet(VmSubnet::allocate(pool)),
        Action::ListDir(_) => Event::Listing(vec![
            DirEntry { len: 30 * MIB, children: None },
            DirEntry { len: MIB, children: Some(vec![]) },
        ]),
        _ => Event::Finished(None),
    }
}

/// What a host answers on which the action fails.
fn bad(action: &Action, pool: &mut SubnetPool) -> Event {
    match action {
        Action::Run(_) => Event::Ran(Outcome::Exited {
            success: false,
            status: "exit status: 1".to_string(),
        }),
        Action::Capture(_) => Event::Captured(Output::Exited {
            success: false,
            stdout: b"x".to_vec(),
            stderr: b"denied\n".to_vec(),
        }),
        Action::CheckExists(_) => Event::Presence(false),
        Action::Poll(_) => Event::Polled { present: false, now: 5_000_001_000 },
        Action::PollSupervisor(_) => Event::Polled { present: false, now: 60_000_001_000 },
        Action::Send(_) => Event::Exchanged(Exchange::Reply(b"HTTP/1.1 400 Bad\r\n\r\nno".to_vec())),
        Action::Spawn(_) => Event::Finished(Some("denied".to_string())),
        Action::CreateDirAll(_) => Event::Finished(Some("full".to_string())),
        Action::RemoveFile(_) => Event::Finished(Some("gone".to_string())),
        Action::RemoveDirAll(_) => Event::Finished(Some("busy".to_string())),
        Action::Sleep(_) => Event::Finished(Some("woken".to_string())),
        Action::Kill => Event::Finished(Some("dead".to_string())),
        Action::StartKill => Event::Finished(Some("dead".to_string())),
        _ => good(action, pool),
    }
}

/// Drives a run to its end. The actions whose line starts with one of `failing` fail.
fn drive(mut run: Run, failing: &[&str]) -> (Vec<String>, Result<Facts, FirecrackerError>) {
    let mut pool = SubnetPool::new();
    let mut lines: Vec<String> = Vec::new();
    loop {
        let event = match run.action() {
            Some(action) => {
                let line = show(&action);
                let event = if failing.iter().any(|f| line.starts_with(f)) {
                    bad(&action, &mut pool)
                } else {
                    good(&action, &mut pool)
                };
                lines.push(line);
                assert!(action.answered_by(&event));
                event
            }
            None => break,
        };
        run.resume(event);
    }
    (lines, run.outcome())
}

fn overlay() -> WorkspaceOverlay {
    let mut facts = Facts::none();
    facts.base_loop = "/dev/loop5".to_string();
    facts.cow_loop = "/dev/loop6".to_string();
    WorkspaceOverlay::created(ID, "/ov", &facts)
}

fn subnet() -> VmSubnet {
    VmSubnet::allocate(&mut SubnetPool::new())
}

fn runtime() -> FirecrackerRuntime {
    FirecrackerRuntime::new(FirecrackerRuntimeConfig {
        binary_path: "/fc".to_string(),
        kernel_path: "/k".to_string(),
        rootfs_path: "/r.ext4".to_string(),
        overlay_dir: "/ov".to_string(),
        snapshot_path: "/s.snap".to_string(),
        snapshot_mem_path: "/s.mem".to_string(),
        default_vcpu_count: 3,
        default_mem_mib: 512,
    })
}

fn vm() -> FirecrackerVm {
    FirecrackerVm::launched(ID, overlay(), subnet(), "/tmp")
}

const LAUNCH: [&str; 13] = [
    "exists /dev/kvm",
    "allocate",
    "ip tuntap add dev fc-tap-a1b2c3d4 mode tap",
    "ip addr add 192.168.100.1/30 dev fc-tap-a1b2c3d4",
    "ip link set fc-tap-a1b2c3d4 up",
    "sysctl -w net.ipv4.ip_forward=1",
    "iptables -t nat -A PREROUTING -s 192.168.100.0/30 -p tcp -j REDIRECT --to-port 3128",
    "iptables -A FORWARD -s 192.168.100.0/30 ! -p tcp -j DROP",
    "exists /fc",
    "rm /tmp/fc-a1b2c3d4.sock",
    "spawn /fc --api-sock /tmp/fc-a1b2c3d4.sock",
    "clock",
    "poll /tmp/fc-a1b2c3d4.sock",
];

const RESTORE: [&str; 4] = [
    "PUT /snapshot/load via /tmp/fc-a1b2c3d4.sock",
    "PATCH /drives/workspace via /tmp/fc-a1b2c3d4.sock",
    "PUT /network-interfaces/fc-tap-a1b2c3d4 via /tmp/fc-a1b2c3d4.sock",
    "PUT /actions via /tmp/fc-a1b2c3d4.sock",
];

const REMOVE_RULES: [&str; 2] = [
    "iptables -t nat -D PREROUTING -s 192.168.100.0/30 -p tcp -j REDIRECT --to-port 3128",
    "iptables -D FORWARD -s 192.168.100.0/30 ! -p tcp -j DROP",
];

const DELETE_TAP: [&str; 1] = ["ip tuntap del dev fc-tap-a1b2c3d4 mode tap"];

const DESTROY_OVERLAY: [&str; 4] = [
    "dmsetup remove fc-ws-a1b2c3d4",
    "losetup -d /dev/loop5",
    "losetup -d /dev/loop6",
    "rm /ov/a1b2c3d4.cow",
];

const CREATE_OVERLAY: [&str; 5] = [
    "truncate -s 2048M /ov/a1b2c3d4.cow",
    "capture losetup -f --show -r /ov/a1b2c3d4-ws-base.img",
    "capture losetup -f --show /ov/a1b2c3d4.cow",
    "capture blockdev --getsz /dev/loop5",
    "dmsetup create fc-ws-a1b2c3d4 --table 0 4096 snapshot /dev/loop5 /dev/loop6 P 8",
];

fn all(parts: &[&[&str]]) -> Vec<String> {
    parts.iter().flat_map(|p| p.iter()).map(|s| s.to_string()).collect()
}

fn release() -> Vec<String> {
    all(&[
        &["start kill", "rm /tmp/fc-a1b2c3d4.sock"],
        &DELETE_TAP,
        &DESTROY_OVERLAY,
        &REMOVE_RULES,
    ])
}

#[test]
fn default_config() {
    let config = FirecrackerRuntimeConfig::default();
    assert_eq!(config.binary_path, "/usr/local/bin/firecracker");
    assert_eq!(config.kernel_path, "/var/lib/openshell/firecracker/vmlinux");
    assert_eq!(config.rootfs_path, "/var/lib/openshell/firecracker/rootfs.ext4");
    assert_eq!(config.overlay_dir, "/var/lib/openshell/firecracker/overlays");
    assert_eq!(config.snapshot_path, "/var/lib/openshell/firecracker/base.snapshot");
    assert_eq!(config.snapshot_mem_path, "/var/lib/openshell/firecracker/base.mem");
    assert_eq!(config.default_vcpu_count, 2);
    assert_eq!(config.default_mem_mib, 2048);
    assert_eq!(format!("{:?}", config.clone()), format!("{:?}", config));
}

#[test]
fn short_ids() {
    assert!(has_short_id("12345678"));
    assert!(has_short_id("abcdefghi"));
    assert_eq!(short_id("abcdefghi"), "abcdefgh");
    assert!(!has_short_id("1234567"));
    assert!(!has_short_id(""));
    assert!(!has_short_id("1234567é"));
    assert!(has_short_id("éééé-x"));
    assert_eq!(short_id("éééé-x"), "éééé");
}

#[test]
fn mac_addresses() {
    assert_eq!(derive_mac("a1b2c3d4"), "02:61:31:62:32:63");
    assert_eq!(derive_mac("ab"), "02:61:62:00:00:00");
    assert_eq!(derive_mac(""), "02:00:00:00:00:00");
    assert_eq!(derive_mac("é\u{7f}zzz"), "02:c3:a9:7f:7a:7a");
    assert_eq!(derive_mac("abcdeX"), derive_mac("abcdeY"));
    assert_ne!(derive_mac("abcdX"), derive_mac("abcdY"));
}

#[test]
fn resources_of_different_sandboxes_differ() {
    let other = "a1b2c3d5-0000";
    assert_ne!(socket_path_text("/tmp", ID), socket_path_text("/tmp", other));
    assert_eq!(socket_path_text("/tmp", ID), "/tmp/fc-a1b2c3d4.sock");
    let theirs = WorkspaceOverlay::created(other, "/ov", &Facts::none());
    let ours = overlay();
    assert_ne!(ours.dm_name, theirs.dm_name);
    assert_ne!(ours.device_path, theirs.device_path);
    assert_ne!(ours.cow_path, theirs.cow_path);
    assert_ne!(
        TapDevice::created(ID, subnet()).name,
        TapDevice::created(other, subnet()).name
    );
    assert_eq!(TapDevice::created(ID, subnet()).name.len(), 15);
}

#[test]
fn mount_points_have_random_names() {
    let one = tempfile_dir("/tmp");
    let two = tempfile_dir("/tmp");
    assert_ne!(one, two);
    for path in [one, two] {
        let name = path.strip_prefix("/tmp/fc-mount-").unwrap().to_string();
        assert_eq!(path, mount_dir_text("/tmp", &name));
        let groups: Vec<usize> = name.split('-').map(|g| g.len()).collect();
        assert_eq!(groups, vec![8, 4, 4, 4, 12]);
        assert!(name.chars().all(|c| c == '-' || c.is_ascii_digit() || ('a'..='f').contains(&c)));
        assert_eq!(name.as_bytes()[14], b'4');
        assert!(b"89ab".contains(&name.as_bytes()[19]));
    }
}

#[test]
fn tap_is_created_and_destroyed() {
    let (lines, outcome) = drive(TapDevice::create(ID), &[]);
    assert_eq!(lines, all(&[&LAUNCH[1..5]]));
    let tap = TapDevice::created(ID, outcome.unwrap().subnet.unwrap());
    assert_eq!(tap.name, "fc-tap-a1b2c3d4");
    assert_eq!(tap.subnet, subnet());
    let (lines, outcome) = drive(tap.destroy(), &[]);
    assert_eq!(lines, all(&[&DELETE_TAP]));
    assert!(outcome.is_ok());
    assert!(drive(tap.destroy(), &["ip"]).1.is_ok());
}

#[test]
fn tap_failures() {
    let cases = [
        (
            "ip tuntap",
            2,
            "tap device error: tuntap add failed: tap device error: ip tuntap add dev fc-tap-a1b2c3d4 mode tap exited with exit status: 1",
        ),
        (
            "ip addr",
            3,
            "tap device error: addr add failed: tap device error: ip addr add 192.168.100.1/30 dev fc-tap-a1b2c3d4 exited with exit status: 1",
        ),
        (
            "ip link",
            4,
            "tap device error: link set up failed: tap device error: ip link set fc-tap-a1b2c3d4 up exited with exit status: 1",
        ),
    ];
    for (failing, n, message) in cases {
        let (lines, outcome) = drive(TapDevice::create(ID), &[failing]);
        assert_eq!(lines, all(&[&LAUNCH[1..n + 1]]));
        assert_eq!(outcome.unwrap_err().message(), message);
    }
}

#[test]
fn rules_are_installed_and_removed() {
    assert_eq!(PROXY_PORT, 3128);
    let (lines, outcome) = drive(VmRouting::install(&subnet()), &[]);
    assert_eq!(lines, all(&[&LAUNCH[5..8]]));
    assert!(outcome.is_ok());
    let routing = VmRouting::installed(subnet());
    let (lines, outcome) = drive(routing.remove(), &["iptables"]);
    assert_eq!(lines, all(&[&REMOVE_RULES]));
    assert!(outcome.is_ok());
}

#[test]
fn rule_failures() {
    let (lines, outcome) = drive(VmRouting::install(&subnet()), &["sysctl"]);
    assert_eq!(lines.len(), 1);
    assert_eq!(
        outcome.unwrap_err().message(),
        "routing error: sysctl net.ipv4.ip_forward=1 failed"
    );
    let (lines, outcome) = drive(VmRouting::install(&subnet()), &["iptables -A"]);
    assert_eq!(lines, all(&[&LAUNCH[5..8]]));
    assert_eq!(
        outcome.unwrap_err().message(),
        "routing error: iptables -A FORWARD -s 192.168.100.0/30 ! -p tcp -j DROP exited with exit status: 1"
    );
}

#[test]
fn removal_deletes_what_installation_appends() {
    let (installed, _) = drive(VmRouting::install(&subnet()), &[]);
    let (removed, _) = drive(VmRouting::installed(subnet()).remove(), &[]);
    for i in 0..2 {
        assert_eq!(installed[i + 1].replace("-A", "-D"), removed[i]);
    }
}

#[test]
fn overlay_is_created() {
    let (lines, outcome) =
        drive(WorkspaceOverlay::create(ID, "/ov/a1b2c3d4-ws-base.img", "/ov"), &[]);
    assert_eq!(lines, all(&[&CREATE_OVERLAY]));
    let facts = outcome.unwrap();
    assert_eq!(facts.sectors, 4096);
    let overlay = WorkspaceOverlay::created(ID, "/ov", &facts);
    assert_eq!(overlay.dm_name, "fc-ws-a1b2c3d4");
    assert_eq!(overlay.device_path, "/dev/mapper/fc-ws-a1b2c3d4");
    assert_eq!(overlay.cow_path, "/ov/a1b2c3d4.cow");
    assert_eq!(overlay.base_loop, "/dev/loop5");
    assert_eq!(overlay.cow_loop, "/dev/loop6");
    let (lines, outcome) = drive(overlay.destroy(), &["dmsetup", "losetup", "rm"]);
    assert_eq!(lines, all(&[&DESTROY_OVERLAY]));
    assert!(outcome.is_ok());
}

#[test]
fn overlay_failures() {
    let cases = [
        ("truncate", 1, "overlay error: truncate failed: truncate exited with exit status: 1"),
        ("capture losetup -f --show -r", 2, "overlay error: denied"),
        ("capture losetup -f --show /", 3, "overlay error: denied"),
        (
            "capture blockdev",
            4,
            "overlay error: blockdev parse failed: invalid digit found in string",
        ),
        ("dmsetup", 5, "overlay error: dmsetup create failed: dmsetup exited with exit status: 1"),
    ];
    for (failing, n, message) in cases {
        let run = WorkspaceOverlay::create(ID, "/ov/a1b2c3d4-ws-base.img", "/ov");
        let (lines, outcome) = drive(run, &[failing]);
        assert_eq!(lines, all(&[&CREATE_OVERLAY[..n]]));
        assert_eq!(outcome.unwrap_err().message(), message);
    }
}

const PACK: [&str; 7] = [
    "truncate -s 700M /d.img",
    "mkfs.ext4 -q /d.img",
    "mkdir /m",
    "mount -o loop /d.img /m",
    "cp -a /src/. /m",
    "umount /m",
    "rmdir /m",
];

#[test]
fn directory_is_packed() {
    let run = WorkspaceOverlay::pack_directory_at("/src", "/d.img", 700, "/m");
    let (lines, outcome) = drive(run, &["umount", "rmdir"]);
    assert_eq!(lines, all(&[&PACK]));
    assert!(outcome.is_ok());
}

#[test]
fn packing_failures() {
    let cases = [
        ("truncate", 1, "overlay error: truncate failed: truncate exited with exit status: 1"),
        ("mkfs", 2, "overlay error: mkfs.ext4 failed: mkfs.ext4 exited with exit status: 1"),
        ("mkdir", 3, "full"),
        ("mount", 4, "overlay error: mount failed: mount exited with exit status: 1"),
        ("cp", 7, "overlay error: copy failed: cp exited with exit status: 1"),
    ];
    for (failing, n, message) in cases {
        let run = WorkspaceOverlay::pack_directory_at("/src", "/d.img", 700, "/m");
        let (lines, outcome) = drive(run, &[failing]);
        assert_eq!(lines, all(&[&PACK[..n]]));
        assert_eq!(outcome.unwrap_err().message(), message);
    }
}

#[test]
fn packing_mounts_under_the_temporary_directory() {
    let (lines, outcome) =
        drive(WorkspaceOverlay::pack_directory("/src", "/d.img", 1, "/tmp"), &[]);
    assert_eq!(lines.len(), 7);
    assert_eq!(lines[0], "truncate -s 1M /d.img");
    let dir = lines[2].strip_prefix("mkdir ").unwrap();
    assert!(dir.starts_with("/tmp/fc-mount-"));
    assert_eq!(lines[4], format!("cp -a /src/. {}", dir));
    assert!(outcome.is_ok());
}

const SYNC: [&str; 5] = [
    "mkdir /m",
    "mount /dev/mapper/fc-ws-a1b2c3d4 /m",
    "cp -a /m/. /home",
    "umount /m",
    "rmdir /m",
];

#[test]
fn workspace_is_synced_back() {
    let (lines, outcome) = drive(overlay().sync_back_at("/home", "/m"), &[]);
    assert_eq!(lines, all(&[&SYNC]));
    assert!(outcome.is_ok());
    let (lines, outcome) = drive(overlay().sync_back_at("/home", "/m"), &["cp"]);
    assert_eq!(lines, all(&[&SYNC]));
    assert_eq!(
        outcome.unwrap_err().message(),
        "overlay error: sync back failed: cp exited with exit status: 1"
    );
    let (lines, outcome) = drive(overlay().sync_back_at("/home", "/m"), &["mount"]);
    assert_eq!(lines, all(&[&SYNC[..2]]));
    assert_eq!(
        outcome.unwrap_err().message(),
        "overlay error: mount failed: mount exited with exit status: 1"
    );
    let (lines, _) = drive(overlay().sync_back("/home", "/tmp"), &[]);
    assert!(lines[0].starts_with("mkdir /tmp/fc-mount-"));
}

fn from_snapshot() -> Run {
    FirecrackerVm::from_snapshot(ID, "/s.snap", "/s.mem", &overlay(), "/fc", "/ov", "/tmp")
}

#[test]
fn vm_is_restored_from_a_snapshot() {
    let (lines, outcome) = drive(from_snapshot(), &[]);
    assert_eq!(lines, all(&[&LAUNCH, &RESTORE]));
    let facts = outcome.unwrap();
    assert_eq!(facts.subnet, Some(subnet()));
    assert_eq!(facts.base_loop, "/dev/loop5");
}

#[test]
fn a_stale_socket_need_not_be_there() {
    let (lines, outcome) = drive(from_snapshot(), &["rm"]);
    assert_eq!(lines, all(&[&LAUNCH, &RESTORE]));
    assert!(outcome.is_ok());
}

#[test]
fn restoring_sends_these_bodies() {
    let mut run = from_snapshot();
    let mut pool = SubnetPool::new();
    let mut bodies: Vec<String> = Vec::new();
    loop {
        let event = match run.action() {
            Some(action) => {
                if let Action::Send(call) = &action {
                    bodies.push(format!("{:?}", call.body));
                }
                good(&action, &mut pool)
            }
            None => break,
        };
        run.resume(event);
    }
    assert_eq!(
        bodies,
        vec![
            "SnapshotLoad(SnapshotLoad { snapshot_path: \"/s.snap\", mem_backend: MemBackend { backend_type: \"File\", backend_path: \"/s.mem\" }, enable_diff_snapshots: false, resume_vm: false })",
            "Drive(Drive { drive_id: \"workspace\", path_on_host: \"/dev/mapper/fc-ws-a1b2c3d4\", is_root_device: false, is_read_only: false })",
            "NetworkInterface(NetworkInterface { iface_id: \"fc-tap-a1b2c3d4\", host_dev_name: \"fc-tap-a1b2c3d4\", guest_mac: \"02:61:31:62:32:63\" })",
            "InstanceAction(InstanceAction { action_type: \"ResumeVm\" })",
        ]
    );
}

#[test]
fn without_kvm_there_is_no_vm() {
    let (lines, outcome) = drive(from_snapshot(), &["exists /dev/kvm"]);
    assert_eq!(lines, all(&[&LAUNCH[..1], &DESTROY_OVERLAY]));
    assert!(matches!(outcome, Err(FirecrackerError::KvmUnavailable)));
}

#[test]
fn a_failed_launch_releases_what_it_made() {
    // Making the tap.
    for (failing, n) in [("ip tuntap add", 3), ("ip addr", 4), ("ip link", 5)] {
        let (lines, outcome) = drive(from_snapshot(), &[failing]);
        assert_eq!(lines, all(&[&LAUNCH[..n], &DESTROY_OVERLAY]));
        assert!(matches!(outcome, Err(FirecrackerError::Tap(_))));
    }
    // Installing the rules.
    for (failing, n) in [("sysctl", 6), ("iptables -t nat -A", 7), ("iptables -A", 8)] {
        let (lines, outcome) = drive(from_snapshot(), &[failing]);
        assert_eq!(lines, all(&[&LAUNCH[..n], &DELETE_TAP, &DESTROY_OVERLAY]));
        assert!(matches!(outcome, Err(FirecrackerError::Routing(_))));
    }
    // Starting the process.
    for (failing, n, message) in [
        ("exists /fc", 9, "firecracker binary not found at /fc"),
        ("spawn", 11, "VM process error: denied"),
        (
            "poll",
            13,
            "Firecracker API connection error: timed out waiting for Firecracker API socket",
        ),
    ] {
        let (lines, outcome) = drive(from_snapshot(), &[failing]);
        assert_eq!(lines, all(&[&LAUNCH[..n], &REMOVE_RULES, &DELETE_TAP, &DESTROY_OVERLAY]));
        assert_eq!(outcome.unwrap_err().message(), message);
    }
    // Calling the API.
    for n in 0..4 {
        let (lines, outcome) = drive(from_snapshot(), &[RESTORE[n]]);
        assert_eq!(
            lines,
            all(&[&LAUNCH, &RESTORE[..n + 1], &REMOVE_RULES, &DELETE_TAP, &DESTROY_OVERLAY])
        );
        assert_eq!(outcome.unwrap_err().message(), "Firecracker API error (400): no");
    }
}

#[test]
fn failing_releases_change_nothing() {
    let failing = ["PUT /snapshot/load", "iptables -t nat -D", "ip tuntap del", "losetup", "rm"];
    let (lines, outcome) = drive(from_snapshot(), &failing);
    assert_eq!(
        lines,
        all(&[&LAUNCH, &RESTORE[..1], &REMOVE_RULES, &DELETE_TAP, &DESTROY_OVERLAY])
    );
    assert_eq!(outcome.unwrap_err().message(), "Firecracker API error (400): no");
}

#[test]
fn the_socket_is_looked_for_every_50_ms() {
    let mut run = from_snapshot();
    let mut pool = SubnetPool::new();
    let mut polls: u64 = 0;
    let mut lines: Vec<String> = Vec::new();
    loop {
        let event = match run.action() {
            Some(action) => {
                lines.push(show(&action));
                match &action {
                    Action::Poll(_) => {
                        polls += 1;
                        Event::Polled { present: polls == 3, now: 1_000 + polls }
                    }
                    _ => good(&action, &mut pool),
                }
            }
            None => break,
        };
        run.resume(event);
    }
    let poll = LAUNCH[12];
    let waited = [poll, "sleep 50", poll, "sleep 50", poll];
    assert_eq!(lines, all(&[&LAUNCH[..12], &waited, &RESTORE]));
    assert!(run.outcome().is_ok());
}

#[test]
fn vm_is_booted_fresh() {
    let config = FreshBootConfig {
        sandbox_id: ID.to_string(),
        vcpu_count: 3,
        mem_mib: 512,
        kernel_path: "/k".to_string(),
        rootfs_path: "/r.ext4".to_string(),
        workspace_overlay: overlay(),
    };
    let mut run = FirecrackerVm::boot_fresh(&config, "/fc", "/tmp");
    let mut pool = SubnetPool::new();
    let mut calls: Vec<String> = Vec::new();
    loop {
        let event = match run.action() {
            Some(action) => {
                if let Action::Send(call) = &action {
                    calls.push(format!("{} {} {:?}", call.method.name(), call.path, call.body));
                }
                good(&action, &mut pool)
            }
            None => break,
        };
        run.resume(event);
    }
    assert!(run.outcome().is_ok());
    assert_eq!(
        calls,
        vec![
            "PUT /machine-config MachineConfig(MachineConfig { vcpu_count: 3, mem_size_mib: 512 })",
            "PUT /boot-source BootSource(BootSource { kernel_image_path: \"/k\", boot_args: \"console=ttyS0 reboot=k panic=1 pci=off ro root=/dev/vda init=/sbin/tini -- /opt/openshell/bin/openshell-sandbox\" })",
            "PUT /drives/rootfs Drive(Drive { drive_id: \"rootfs\", path_on_host: \"/r.ext4\", is_root_device: true, is_read_only: true })",
            "PUT /drives/workspace Drive(Drive { drive_id: \"workspace\", path_on_host: \"/dev/mapper/fc-ws-a1b2c3d4\", is_root_device: false, is_read_only: false })",
            "PUT /network-interfaces/fc-tap-a1b2c3d4 NetworkInterface(NetworkInterface { iface_id: \"fc-tap-a1b2c3d4\", host_dev_name: \"fc-tap-a1b2c3d4\", guest_mac: \"02:61:31:62:32:63\" })",
            "PUT /actions InstanceAction(InstanceAction { action_type: \"InstanceStart\" })",
        ]
    );
}

#[test]
fn snapshot_is_taken_while_paused() {
    let (lines, outcome) = drive(vm().create_snapshot("/s.snap", "/s.mem"), &[]);
    let pause = "PUT /actions via /tmp/fc-a1b2c3d4.sock";
    assert_eq!(lines, all(&[&[pause, "PUT /snapshot/create via /tmp/fc-a1b2c3d4.sock"]]));
    assert!(outcome.is_ok());
    let (lines, outcome) = drive(vm().create_snapshot("/s.snap", "/s.mem"), &["PUT /actions"]);
    assert_eq!(lines, all(&[&[pause]]));
    assert!(matches!(outcome, Err(FirecrackerError::Api { status: 400, .. })));
}

#[test]
fn vm_knows_its_guest_address() {
    assert_eq!(vm().guest_ip(), Ipv4Addr { a: 192, b: 168, c: 100, d: 2 });
    assert_eq!(vm().sandbox_id, ID);
}

#[test]
fn vm_is_destroyed() {
    let (lines, outcome) = drive(vm().destroy(None, "/tmp"), &["kill", "rm"]);
    let head = ["kill", "rm /tmp/fc-a1b2c3d4.sock"];
    let mut expected = all(&[&head]);
    expected.extend(release());
    assert_eq!(lines, expected);
    assert!(outcome.is_ok());
}

#[test]
fn vm_is_destroyed_after_a_sync() {
    let (lines, outcome) = drive(vm().destroy_at(Some("/home"), "/m"), &[]);
    let mut expected = all(&[&["kill"], &SYNC, &["rm /tmp/fc-a1b2c3d4.sock"]]);
    expected.extend(release());
    assert_eq!(lines, expected);
    assert!(outcome.is_ok());
    let (lines, _) = drive(vm().destroy(Some("/home"), "/tmp"), &[]);
    assert!(lines[1].starts_with("mkdir /tmp/fc-mount-"));
}

#[test]
fn a_failed_sync_still_releases_all() {
    let (lines, outcome) = drive(vm().destroy_at(Some("/home"), "/m"), &["cp"]);
    let mut expected = all(&[&["kill"], &SYNC]);
    expected.extend(release());
    assert_eq!(lines, expected);
    assert_eq!(
        outcome.unwrap_err().message(),
        "overlay error: sync back failed: cp exited with exit status: 1"
    );
}

#[test]
fn a_vm_that_was_not_destroyed_is_released() {
    let (lines, outcome) = drive(vm().release(), &["start kill", "rm", "ip", "dmsetup"]);
    assert_eq!(lines, release());
    assert!(outcome.is_ok());
}

#[test]
fn sandbox_is_created_with_a_workspace() {
    let run = runtime().create_sandbox_at(ID, Some("/work"), "/tmp", "/m");
    let (lines, outcome) = drive(run, &[]);
    // 30 MiB in a file, 1 MiB and at least 64 MiB in a directory, and 512 MiB of slack.
    let pack = [
        "mkdir /ov",
        "list /work",
        "truncate -s 607M /ov/a1b2c3d4-ws-base.img",
        "mkfs.ext4 -q /ov/a1b2c3d4-ws-base.img",
        "mkdir /m",
        "mount -o loop /ov/a1b2c3d4-ws-base.img /m",
        "cp -a /work/. /m",
        "umount /m",
        "rmdir /m",
    ];
    assert_eq!(lines, all(&[&pack, &CREATE_OVERLAY, &LAUNCH, &RESTORE]));
    let facts = outcome.unwrap();
    let vm = runtime().sandbox_vm(ID, &facts, "/tmp").unwrap();
    assert_eq!(vm.sandbox_id, ID);
    assert_eq!(vm.tap.name, "fc-tap-a1b2c3d4");
    assert_eq!(vm.tap.subnet, subnet());
    assert_eq!(vm.routing.subnet, subnet());
    assert_eq!(vm.overlay.base_loop, "/dev/loop5");
    assert_eq!(vm.overlay.cow_loop, "/dev/loop6");
    assert_eq!(vm.socket_path, "/tmp/fc-a1b2c3d4.sock");
    assert_eq!(drive(vm.release(), &[]).0, release());
}

const EMPTY_IMAGE: [&str; 3] = [
    "mkdir /ov",
    "truncate -s 512M /ov/a1b2c3d4-ws-base.img",
    "mkfs.ext4 -q /ov/a1b2c3d4-ws-base.img",
];

#[test]
fn sandbox_is_created_without_a_workspace() {
    // Nothing is mounted or copied: it would fail here.
    let failing = ["cp", "mount", "list"];
    let (lines, outcome) = drive(runtime().create_sandbox(ID, None, "/tmp"), &failing);
    assert_eq!(lines, all(&[&EMPTY_IMAGE, &CREATE_OVERLAY, &LAUNCH, &RESTORE]));
    let vm = runtime().sandbox_vm(ID, &outcome.unwrap(), "/tmp").unwrap();
    assert_eq!(vm.sandbox_id, ID);
}

#[test]
fn an_empty_image_must_be_made() {
    let cases = [
        ("truncate -s 512M", 2, "overlay error: truncate failed: truncate exited with exit status: 1"),
        ("mkfs", 3, "overlay error: mkfs.ext4 failed: mkfs.ext4 exited with exit status: 1"),
    ];
    for (failing, n, message) in cases {
        let (lines, outcome) = drive(runtime().create_sandbox(ID, None, "/tmp"), &[failing]);
        assert_eq!(lines, all(&[&EMPTY_IMAGE[..n]]));
        assert_eq!(outcome.unwrap_err().message(), message);
    }
}

#[test]
fn sandbox_is_created_from_the_default_config() {
    let runtime = FirecrackerRuntime::new(FirecrackerRuntimeConfig::default());
    let (lines, outcome) = drive(runtime.create_sandbox("a1b2c3d4", None, "/tmp"), &["cp"]);
    assert_eq!(
        lines[1],
        "truncate -s 512M /var/lib/openshell/firecracker/overlays/a1b2c3d4-ws-base.img"
    );
    assert_eq!(
        lines[3],
        "truncate -s 2048M /var/lib/openshell/firecracker/overlays/a1b2c3d4.cow"
    );
    let vm = runtime.sandbox_vm("a1b2c3d4", &outcome.unwrap(), "/tmp").unwrap();
    assert_eq!(vm.sandbox_id, "a1b2c3d4");
    assert!(vm.is_valid());
}

#[test]
fn workspace_is_packed_under_the_temporary_directory() {
    let (lines, outcome) = drive(runtime().create_sandbox(ID, Some("/work"), "/tmp"), &[]);
    assert!(lines[4].starts_with("mkdir /tmp/fc-mount-"));
    assert!(lines[6].starts_with("cp -a /work/. /tmp/fc-mount-"));
    assert!(outcome.is_ok());
}

#[test]
fn a_short_id_gets_no_sandbox() {
    let (lines, outcome) = drive(runtime().create_sandbox("a1b2c3d", Some("/work"), "/tmp"), &[]);
    assert_eq!(lines, all(&[&["mkdir /ov"]]));
    let mut facts = outcome.unwrap();
    assert!(runtime().sandbox_vm("a1b2c3d", &facts, "/tmp").is_none());
    facts.subnet = Some(subnet());
    assert!(runtime().sandbox_vm("a1b2c3d", &facts, "/tmp").is_none());
    let (_, outcome) = drive(runtime().create_sandbox("a1b2c3d", None, "/tmp"), &["mkdir"]);
    assert!(matches!(outcome, Err(FirecrackerError::Io(t)) if t == "full"));
}

#[test]
fn a_short_id_needs_kvm_too() {
    let restore = || {
        FirecrackerVm::from_snapshot("a1", "/s.snap", "/s.mem", &overlay(), "/fc", "/ov", "/tmp")
    };
    let config = FreshBootConfig {
        sandbox_id: "a1".to_string(),
        vcpu_count: 3,
        mem_mib: 512,
        kernel_path: "/k".to_string(),
        rootfs_path: "/r.ext4".to_string(),
        workspace_overlay: overlay(),
    };
    let boot = || FirecrackerVm::boot_fresh(&config, "/fc", "/tmp");
    for run in [restore(), boot()] {
        let (lines, outcome) = drive(run, &["exists /dev/kvm"]);
        assert_eq!(lines, all(&[&LAUNCH[..1], &DESTROY_OVERLAY]));
        assert!(matches!(outcome, Err(FirecrackerError::KvmUnavailable)));
    }
    for run in [restore(), boot()] {
        let (lines, outcome) = drive(run, &[]);
        assert_eq!(lines, all(&[&LAUNCH[..1], &DESTROY_OVERLAY]));
        assert_eq!(outcome.unwrap().subnet, None);
    }
}

#[test]
fn facts_and_vms_can_be_tested() {
    let bad_ip = Ipv4Addr { a: 10, b: 0, c: 0, d: 0 };
    let bad = VmSubnet { host_ip: bad_ip, guest_ip: bad_ip, prefix_len: 30 };
    assert!(subnet().has_network_ip());
    assert!(!bad.has_network_ip());
    let mut facts = Facts::none();
    assert!(facts.is_sound());
    facts.subnet = Some(subnet());
    assert!(facts.is_sound());
    facts.subnet = Some(bad);
    assert!(!facts.is_sound());
    let mut vm = vm();
    assert!(vm.is_valid());
    vm.routing.subnet = bad;
    assert!(!vm.is_valid());
    vm.tap.subnet = bad;
    assert!(!vm.is_valid());
}

#[test]
fn no_subnet_no_vm() {
    assert!(runtime().sandbox_vm(ID, &Facts::none(), "/tmp").is_none());
}

#[test]
fn sandbox_creation_fails_with_the_overlay_directory() {
    let (lines, outcome) = drive(runtime().create_sandbox(ID, None, "/tmp"), &["mkdir /ov"]);
    assert_eq!(lines, all(&[&["mkdir /ov"]]));
    assert!(matches!(outcome, Err(FirecrackerError::Io(t)) if t == "full"));
}

/// Drives a run until an action's line starts with `stop`.
fn drive_until(run: &mut Run, failing: &[&str], stop: &str) {
    let mut pool = SubnetPool::new();
    loop {
        let event = match run.action() {
            Some(action) => {
                let line = show(&action);
                if line.starts_with(stop) {
                    break;
                }
                if failing.iter().any(|f| line.starts_with(f)) {
                    bad(&action, &mut pool)
                } else {
                    good(&action, &mut pool)
                }
            }
            None => panic!("over before {}", stop),
        };
        run.resume(event);
    }
}

#[test]
fn an_abandoned_launch_releases_what_it_made() {
    let mut run = from_snapshot();
    drive_until(&mut run, &[], "PATCH");
    let (lines, outcome) = drive(run.abandoned(), &["ip"]);
    assert_eq!(lines, all(&[&REMOVE_RULES, &DELETE_TAP, &DESTROY_OVERLAY]));
    assert!(outcome.is_ok());
}

#[test]
fn an_abandoned_failure_completes_its_releases() {
    let mut run = from_snapshot();
    drive_until(&mut run, &["PATCH"], "dmsetup remove");
    let (lines, _) = drive(run.abandoned(), &[]);
    assert_eq!(lines, all(&[&DESTROY_OVERLAY]));
}

#[test]
fn an_abandoned_wait_releases_too() {
    let mut run = from_snapshot();
    drive_until(&mut run, &[], "poll");
    run.resume(Event::Polled { present: false, now: 1_001 });
    assert_eq!(run.action().map(|a| show(&a)), Some("sleep 50".to_string()));
    let (lines, _) = drive(run.abandoned(), &[]);
    assert_eq!(lines, all(&[&REMOVE_RULES, &DELETE_TAP, &DESTROY_OVERLAY]));
}

#[test]
fn an_abandoned_destruction_releases_all() {
    let mut run = vm().destroy(None, "/tmp");
    drive_until(&mut run, &[], "kill");
    assert_eq!(drive(run.abandoned(), &[]).0, release());
}

#[test]
fn nothing_is_left_of_a_run_that_is_over() {
    let mut run = TapDevice::create(ID);
    let mut pool = SubnetPool::new();
    for _ in 0..4 {
        let event = match run.action() {
            Some(action) => good(&action, &mut pool),
            None => panic!("four actions"),
        };
        run.resume(event);
    }
    assert!(run.action().is_none());
    assert!(drive(run.abandoned(), &[]).0.is_empty());
}

const BUILD: [&str; 25] = [
    "mkdir /ov",
    "truncate -s 2048M /ov/snapshot.cow",
    "capture losetup -f --show -r /r.ext4",
    "capture losetup -f --show /ov/snapshot.cow",
    "capture blockdev --getsz /dev/loop5",
    "dmsetup create fc-ws-snapshot --table 0 4096 snapshot /dev/loop5 /dev/loop6 P 8",
    "exists /dev/kvm",
    "allocate",
    "ip tuntap add dev fc-tap-snapshot mode tap",
    "ip addr add 192.168.100.1/30 dev fc-tap-snapshot",
    "ip link set fc-tap-snapshot up",
    "sysctl -w net.ipv4.ip_forward=1",
    "iptables -t nat -A PREROUTING -s 192.168.100.0/30 -p tcp -j REDIRECT --to-port 3128",
    "iptables -A FORWARD -s 192.168.100.0/30 ! -p tcp -j DROP",
    "exists /fc",
    "rm /tmp/fc-snapshot.sock",
    "spawn /fc --api-sock /tmp/fc-snapshot.sock",
    "clock",
    "poll /tmp/fc-snapshot.sock",
    "PUT /machine-config via /tmp/fc-snapshot.sock",
    "PUT /boot-source via /tmp/fc-snapshot.sock",
    "PUT /drives/rootfs via /tmp/fc-snapshot.sock",
    "PUT /drives/workspace via /tmp/fc-snapshot.sock",
    "PUT /network-interfaces/fc-tap-snapshot via /tmp/fc-snapshot.sock",
    "PUT /actions via /tmp/fc-snapshot.sock",
];

const TAKE: [&str; 5] = [
    "sleep 3000",
    "clock",
    "supervisor 192.168.100.2",
    "PUT /actions via /tmp/fc-snapshot.sock",
    "PUT /snapshot/create via /tmp/fc-snapshot.sock",
];

const TEAR_DOWN: [&str; 9] = [
    "start kill",
    "rm /tmp/fc-snapshot.sock",
    "ip tuntap del dev fc-tap-snapshot mode tap",
    "dmsetup remove fc-ws-snapshot",
    "losetup -d /dev/loop5",
    "losetup -d /dev/loop6",
    "rm /ov/snapshot.cow",
    "iptables -t nat -D PREROUTING -s 192.168.100.0/30 -p tcp -j REDIRECT --to-port 3128",
    "iptables -D FORWARD -s 192.168.100.0/30 ! -p tcp -j DROP",
];

#[test]
fn base_snapshot_is_built() {
    let (lines, outcome) = drive(runtime().build_base_snapshot("/tmp"), &["sleep"]);
    let kill = ["kill", "rm /tmp/fc-snapshot.sock"];
    assert_eq!(lines, all(&[&BUILD, &TAKE, &kill, &TEAR_DOWN]));
    assert!(outcome.is_ok());
}

#[test]
fn a_failed_snapshot_tears_the_vm_down() {
    let (lines, outcome) = drive(runtime().build_base_snapshot("/tmp"), &["PUT /snapshot/create"]);
    assert_eq!(lines, all(&[&BUILD, &TAKE, &TEAR_DOWN]));
    assert_eq!(outcome.unwrap_err().message(), "Firecracker API error (400): no");
}

#[test]
fn no_snapshot_is_taken_of_a_vm_that_is_not_ready() {
    let (lines, outcome) = drive(runtime().build_base_snapshot("/tmp"), &["supervisor"]);
    assert_eq!(lines, all(&[&BUILD, &TAKE[..3], &TEAR_DOWN]));
    assert_eq!(
        outcome.unwrap_err().message(),
        "snapshot error: timed out waiting for sandbox supervisor"
    );
}

#[test]
fn the_supervisor_is_looked_for_every_50_ms() {
    let mut run = runtime().build_base_snapshot("/tmp");
    let mut pool = SubnetPool::new();
    let mut looks: u64 = 0;
    let mut lines: Vec<String> = Vec::new();
    loop {
        let event = match run.action() {
            Some(action) => {
                lines.push(show(&action));
                match &action {
                    Action::PollSupervisor(_) => {
                        looks += 1;
                        Event::Polled { present: looks == 3, now: 1_000 + looks }
                    }
                    _ => good(&action, &mut pool),
                }
            }
            None => break,
        };
        run.resume(event);
    }
    let look = TAKE[2];
    let waited = [look, "sleep 50", look, "sleep 50", look];
    let kill = ["kill", "rm /tmp/fc-snapshot.sock"];
    assert_eq!(lines, all(&[&BUILD, &TAKE[..2], &waited, &TAKE[3..], &kill, &TEAR_DOWN]));
    assert!(run.outcome().is_ok());
}

#[test]
fn releases_act_on_the_subnet_and_devices_that_were_told() {
    let mut pool = SubnetPool::new();
    VmSubnet::allocate(&mut pool);
    let mut run = runtime().create_sandbox(ID, None, "/tmp");
    let mut lines: Vec<String> = Vec::new();
    loop {
        let event = match run.action() {
            Some(action) => {
                let line = show(&action);
                let event = match &action {
                    Action::Capture(p) if p.name == "losetup" => {
                        let device: &[u8] = if p.args.len() == 4 { b"/dev/loop8" } else { b"/dev/loop9" };
                        Event::Captured(Output::Exited {
                            success: true,
                            stdout: device.to_vec(),
                            stderr: vec![],
                        })
                    }
                    Action::Send(_) => bad(&action, &mut pool),
                    _ => good(&action, &mut pool),
                };
                lines.push(line);
                event
            }
            None => break,
        };
        run.resume(event);
    }
    assert!(run.outcome().is_err());
    let released = &lines[lines.len() - 7..];
    assert_eq!(
        released.to_vec(),
        all(&[&[
            "iptables -t nat -D PREROUTING -s 192.168.100.4/30 -p tcp -j REDIRECT --to-port 3128",
            "iptables -D FORWARD -s 192.168.100.4/30 ! -p tcp -j DROP",
            "ip tuntap del dev fc-tap-a1b2c3d4 mode tap",
            "dmsetup remove fc-ws-a1b2c3d4",
            "losetup -d /dev/loop8",
            "losetup -d /dev/loop9",
            "rm /ov/a1b2c3d4.cow",
        ]])
    );
    assert!(lines.contains(
        &"iptables -A FORWARD -s 192.168.100.4/30 ! -p tcp -j DROP".to_string()
    ));
}
