use flowmon::connection::{Connection, TransportType};
use flowmon::endpoint::{Endpoint, IpAddress};
use flowmon::process::{
    collect_inodes, contains_inode, find_owner, get_inodes_per_process, join, FdTarget, ProcessInfo,
    ProcessInfos, ProcessRecord,
};
use flowmon::timestamp::Timestamp;

fn process_flow(inode: u64) -> Connection {
    Connection {
        source: Endpoint { ip: IpAddress::V4(2), port: 80 },
        destination: Endpoint { ip: IpAddress::V4(1), port: 5000 },
        inode,
        process_id: 0,
        transport_type: TransportType::Tcp,
        bytes_uploaded: 50,
        bytes_downloaded: 100,
        first_seen: Timestamp { nanos: 1 },
        last_seen: Timestamp { nanos: 2 },
    }
}

fn process_info(pid: i32, executable: &str, inodes: Vec<u64>) -> ProcessInfo {
    ProcessInfo { pid, command: format!("cmd{}", pid), executable: String::from(executable), inodes }
}

fn process_map(infos: Vec<ProcessInfo>) -> ProcessInfos {
    let mut map = ProcessInfos::new();
    for info in infos {
        map.insert(info.pid, info);
    }
    map
}

#[test]
fn join_puts_the_separator_between_parts() {
    let parts = vec![String::from("nginx"), String::from("-g"), String::from("daemon off;")];
    assert_eq!(join(&parts, " "), "nginx -g daemon off;");
    assert_eq!(join(&parts, ", "), "nginx, -g, daemon off;");
    assert_eq!(join(&vec![String::from("one")], " "), "one");
    assert_eq!(join(&Vec::new(), " "), "");
    assert_eq!(join(&vec![String::new(), String::new()], " "), " ");
    assert_eq!(join(&vec![String::from("a"), String::new()], "-"), "a-");
}

#[test]
fn inodes_are_collected_from_inode_bearing_descriptors() {
    let descriptors = vec![
        FdTarget::Path,
        FdTarget::Socket(10),
        FdTarget::AnonInode,
        FdTarget::Net(11),
        FdTarget::Pipe(12),
        FdTarget::MemFd,
        FdTarget::Other(13),
        FdTarget::Socket(10),
    ];
    assert_eq!(collect_inodes(&descriptors), vec![10, 11, 12, 13, 10]);
    assert_eq!(collect_inodes(&vec![FdTarget::Path, FdTarget::MemFd]), Vec::<u64>::new());
    assert_eq!(collect_inodes(&Vec::new()), Vec::<u64>::new());
    assert_eq!(FdTarget::Path.bearing_inode(), None);
    assert_eq!(FdTarget::AnonInode.bearing_inode(), None);
    assert_eq!(FdTarget::Pipe(3).bearing_inode(), Some(3));
}

#[test]
fn sweep_builds_one_entry_per_process() {
    let records = vec![
        ProcessRecord {
            pid: 7,
            cmdline: vec![String::from("curl"), String::from("example.org")],
            executable: String::from("/usr/bin/curl"),
            descriptors: vec![FdTarget::Path, FdTarget::Socket(42)],
        },
        ProcessRecord { pid: 8, cmdline: Vec::new(), executable: String::new(), descriptors: Vec::new() },
    ];
    let processes = get_inodes_per_process(&records);
    assert_eq!(processes.len(), 2);
    assert_eq!(
        processes[&7],
        ProcessInfo {
            pid: 7,
            command: String::from("curl example.org"),
            executable: String::from("/usr/bin/curl"),
            inodes: vec![42],
        }
    );
    assert_eq!(
        processes[&8],
        ProcessInfo { pid: 8, command: String::new(), executable: String::new(), inodes: Vec::new() }
    );
}

#[test]
fn later_record_of_a_process_replaces_the_earlier() {
    let records = vec![
        ProcessRecord {
            pid: 7,
            cmdline: vec![String::from("old")],
            executable: String::from("/old"),
            descriptors: vec![FdTarget::Socket(1)],
        },
        ProcessRecord {
            pid: 7,
            cmdline: vec![String::from("new")],
            executable: String::from("/new"),
            descriptors: vec![FdTarget::Socket(2)],
        },
    ];
    let processes = get_inodes_per_process(&records);
    assert_eq!(processes.len(), 1);
    assert_eq!(processes[&7].command, "new");
    assert_eq!(processes[&7].inodes, vec![2]);
    assert!(get_inodes_per_process(&Vec::new()).is_empty());
}

#[test]
fn process_holding_the_inode_is_bound() {
    let processes = process_map(vec![process_info(3, "/bin/a", vec![1, 2]), process_info(7, "/bin/b", vec![41, 42])]);
    let mut flow = process_flow(42);
    flow.bind_matching_process(&processes);
    assert_eq!(flow.process_id, 7);
    assert_eq!(flow.inode, 42);
    assert_eq!(flow.bytes_uploaded, 50);
    assert_eq!(flow.bytes_downloaded, 100);
    assert_eq!(flow.source, Endpoint { ip: IpAddress::V4(2), port: 80 });
    assert_eq!(flow.last_seen, Timestamp { nanos: 2 });
}

#[test]
fn flow_without_owner_stays_unbound() {
    let processes = process_map(vec![process_info(3, "/bin/a", vec![1, 2])]);
    let mut flow = process_flow(42);
    flow.bind_matching_process(&processes);
    assert_eq!(flow.process_id, 0);
    flow.bind_matching_process(&ProcessInfos::new());
    assert_eq!(flow.process_id, 0);
}

#[test]
fn bound_process_is_never_replaced() {
    let mut flow = process_flow(42);
    flow.bind_matching_process(&process_map(vec![process_info(7, "/bin/b", vec![42])]));
    assert_eq!(flow.process_id, 7);
    flow.bind_matching_process(&process_map(vec![process_info(9, "/bin/c", vec![42])]));
    assert_eq!(flow.process_id, 7);
    flow.bind_matching_process(&ProcessInfos::new());
    assert_eq!(flow.process_id, 7);
}

#[test]
fn shared_inode_binds_one_of_its_holders() {
    let processes = process_map(vec![
        process_info(3, "/bin/a", vec![42]),
        process_info(7, "/bin/b", vec![42]),
        process_info(9, "/bin/c", vec![1]),
    ]);
    let mut flow = process_flow(42);
    flow.bind_matching_process(&processes);
    assert!(flow.process_id == 3 || flow.process_id == 7);
    let owner = find_owner(&processes, 42);
    assert!(owner == Some(3) || owner == Some(7));
    assert_eq!(find_owner(&processes, 1), Some(9));
    assert_eq!(find_owner(&processes, 5), None);
}

#[test]
fn inode_lookup_scans_the_whole_list() {
    assert!(contains_inode(&vec![1, 2, 3], 3));
    assert!(contains_inode(&vec![1, 2, 3], 1));
    assert!(!contains_inode(&vec![1, 2, 3], 4));
    assert!(!contains_inode(&Vec::new(), 0));
}

#[test]
fn cloned_process_info_is_equal() {
    let info = process_info(7, "/bin/b", vec![41, 42]);
    let copy = info.clone();
    assert_eq!(copy, info);
}
