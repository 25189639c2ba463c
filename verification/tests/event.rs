//! What the answers of the host mean.

use openshell_firecracker::error::FirecrackerError;
use openshell_firecracker::event::{
    blockdev_getsz, check_kvm, losetup_attach, parse_sectors, run_cmd, run_ip, run_iptables,
    run_sysctl, wait_for_api, wait_for_supervisor, Event, Outcome, Output, API_READY_TIMEOUT_NANOS,
    SUPERVISOR_READY_TIMEOUT_NANOS,
};
use openshell_firecracker::host::{Action, Program};
use openshell_firecracker::size::DirEntry;
use openshell_firecracker::subnet::{Ipv4Addr, VmSubnet};

fn ended(success: bool) -> Outcome {
    Outcome::Exited { success, status: "exit status: 2".to_string() }
}

fn missing() -> Outcome {
    Outcome::NotStarted("No such file or directory (os error 2)".to_string())
}

fn printed(success: bool, stdout: &[u8], stderr: &[u8]) -> Output {
    Output::Exited { success, stdout: stdout.to_vec(), stderr: stderr.to_vec() }
}

fn args(list: &[&str]) -> Vec<String> {
    list.iter().map(|s| s.to_string()).collect()
}

#[test]
fn ip_runs() {
    let list = args(&["link", "set", "fc-tap-a", "up"]);
    assert!(run_ip(&list, &ended(true)).is_ok());
    assert_eq!(
        run_ip(&list, &ended(false)).unwrap_err().message(),
        "tap device error: ip link set fc-tap-a up exited with exit status: 2"
    );
    assert_eq!(
        run_ip(&list, &missing()).unwrap_err().message(),
        "tap device error: ip command failed: No such file or directory (os error 2)"
    );
}

#[test]
fn iptables_runs() {
    let list = args(&["-A", "FORWARD"]);
    assert!(run_iptables(&list, &ended(true)).is_ok());
    assert_eq!(
        run_iptables(&list, &ended(false)).unwrap_err().message(),
        "routing error: iptables -A FORWARD exited with exit status: 2"
    );
    assert_eq!(
        run_iptables(&list, &missing()).unwrap_err().message(),
        "routing error: No such file or directory (os error 2)"
    );
}

#[test]
fn sysctl_runs() {
    assert!(run_sysctl("k", "v", &ended(true)).is_ok());
    assert_eq!(
        run_sysctl("net.ipv4.ip_forward", "1", &ended(false)).unwrap_err().message(),
        "routing error: sysctl net.ipv4.ip_forward=1 failed"
    );
    assert_eq!(
        run_sysctl("k", "v", &missing()).unwrap_err().message(),
        "routing error: No such file or directory (os error 2)"
    );
}

#[test]
fn tool_runs() {
    assert!(run_cmd("cp", &ended(true)).is_ok());
    assert_eq!(run_cmd("cp", &ended(false)).unwrap_err(), "cp exited with exit status: 2");
    assert_eq!(
        run_cmd("cp", &missing()).unwrap_err(),
        "No such file or directory (os error 2)"
    );
}

#[test]
fn losetup_prints_a_device() {
    assert_eq!(losetup_attach(&printed(true, b" /dev/loop5\n", b"w")).unwrap(), "/dev/loop5");
    assert_eq!(
        losetup_attach(&printed(false, b"/dev/loop5", b"losetup: no free device\n")).unwrap_err().message(),
        "overlay error: losetup: no free device"
    );
    assert_eq!(
        losetup_attach(&Output::NotStarted("denied".to_string())).unwrap_err().message(),
        "overlay error: losetup failed: denied"
    );
}

#[test]
fn losetup_output_need_not_be_utf8() {
    assert_eq!(losetup_attach(&printed(true, b"/dev/\xfe\n", b"")).unwrap(), "/dev/\u{fffd}");
}

#[test]
fn blockdev_prints_a_number() {
    assert_eq!(blockdev_getsz(&printed(true, b"2097152\n", b"")).unwrap(), 2097152);
    assert_eq!(blockdev_getsz(&printed(false, b"8", b"warning")).unwrap(), 8);
    assert_eq!(
        blockdev_getsz(&printed(true, b"\n", b"")).unwrap_err().message(),
        "overlay error: blockdev parse failed: cannot parse integer from empty string"
    );
    assert_eq!(
        blockdev_getsz(&printed(true, b"8 sectors", b"")).unwrap_err().message(),
        "overlay error: blockdev parse failed: invalid digit found in string"
    );
    assert_eq!(
        parse_sectors("18446744073709551616").unwrap_err().message(),
        "overlay error: blockdev parse failed: number too large to fit in target type"
    );
    assert_eq!(
        blockdev_getsz(&Output::NotStarted("denied".to_string())).unwrap_err().message(),
        "overlay error: blockdev failed: denied"
    );
}

#[test]
fn kvm_is_required() {
    assert!(check_kvm(true).is_ok());
    assert!(matches!(check_kvm(false), Err(FirecrackerError::KvmUnavailable)));
}

#[test]
fn the_api_is_waited_for_five_seconds() {
    assert_eq!(API_READY_TIMEOUT_NANOS, 5_000_000_000);
    assert!(matches!(wait_for_api(true, 7, u64::MAX), Ok(Some(()))));
    assert!(matches!(wait_for_api(false, 7, 7), Ok(None)));
    assert!(matches!(wait_for_api(false, 7, 5_000_000_006), Ok(None)));
    assert!(matches!(wait_for_api(false, u64::MAX, u64::MAX), Ok(None)));
    match wait_for_api(false, 7, 5_000_000_007) {
        Err(e) => assert_eq!(
            e.message(),
            "Firecracker API connection error: timed out waiting for Firecracker API socket"
        ),
        Ok(_) => panic!("no time-out"),
    }
}

#[test]
fn the_supervisor_is_waited_for_a_minute() {
    assert_eq!(SUPERVISOR_READY_TIMEOUT_NANOS, 60_000_000_000);
    assert!(matches!(wait_for_supervisor(true, 7, u64::MAX), Ok(Some(()))));
    assert!(matches!(wait_for_supervisor(false, 7, 60_000_000_006), Ok(None)));
    match wait_for_supervisor(false, 7, 60_000_000_007) {
        Err(e) => assert_eq!(
            e.message(),
            "snapshot error: timed out waiting for sandbox supervisor"
        ),
        Ok(_) => panic!("no time-out"),
    }
}

#[test]
fn events_answer_actions_of_their_kind() {
    let run = Action::Run(Program { name: "ip".to_string(), args: vec![] });
    assert!(run.answered_by(&Event::Ran(ended(false))));
    assert!(!run.answered_by(&Event::Finished(None)));
    assert!(Action::RemoveFile("/x").answered_by(&Event::Finished(None)));
    assert!(Action::Poll("/x").answered_by(&Event::Polled { present: false, now: 1 }));
    assert!(!Action::Poll("/x").answered_by(&Event::Presence(true)));
    assert!(Action::PollSupervisor(None).answered_by(&Event::Polled { present: true, now: 1 }));
    assert!(!Action::PollSupervisor(None).answered_by(&Event::Finished(None)));
    assert!(Action::ReadClock.answered_by(&Event::Clock(4)));
}

#[test]
fn a_subnet_needs_a_network_address() {
    let with_host = |d: u8| {
        let ip = Ipv4Addr { a: 10, b: 0, c: 0, d };
        Event::Subnet(VmSubnet { host_ip: ip, guest_ip: ip, prefix_len: 30 })
    };
    assert!(Action::AllocateSubnet.answered_by(&with_host(1)));
    assert!(!Action::AllocateSubnet.answered_by(&with_host(0)));
}

#[test]
fn a_listing_needs_a_sum() {
    let full = || DirEntry { len: u64::MAX, children: None };
    assert!(Action::ListDir("/w").answered_by(&Event::Listing(vec![full()])));
    assert!(!Action::ListDir("/w").answered_by(&Event::Listing(vec![full(), full()])));
}
