use flowmon::connection::{Connection, TransportType};
use flowmon::endpoint::{Endpoint, IpAddress};
use flowmon::process::{ProcessInfo, ProcessInfos};
use flowmon::report::{absorb_processes, bind_processes, refresh, resolved_processes};
use flowmon::timestamp::Timestamp;

fn report_flow(port: u16, inode: u64) -> Connection {
    Connection {
        source: Endpoint { ip: IpAddress::V4(1), port },
        destination: Endpoint { ip: IpAddress::V4(2), port: 80 },
        inode,
        process_id: 0,
        transport_type: TransportType::Tcp,
        bytes_uploaded: 1,
        bytes_downloaded: 2,
        first_seen: Timestamp { nanos: 1 },
        last_seen: Timestamp { nanos: 2 },
    }
}

fn report_info(pid: i32, executable: &str, inodes: Vec<u64>) -> ProcessInfo {
    ProcessInfo { pid, command: format!("cmd{}", pid), executable: String::from(executable), inodes }
}

fn report_map(infos: Vec<ProcessInfo>) -> ProcessInfos {
    let mut map = ProcessInfos::new();
    for info in infos {
        map.insert(info.pid, info);
    }
    map
}

#[test]
fn absorbed_processes_overlay_the_held_ones() {
    let mut held = report_map(vec![report_info(1, "/a", vec![1]), report_info(2, "/b", vec![2])]);
    let latest = report_map(vec![report_info(2, "/b2", vec![20]), report_info(3, "/c", vec![3])]);
    absorb_processes(&mut held, &latest);
    assert_eq!(
        held,
        report_map(vec![
            report_info(1, "/a", vec![1]),
            report_info(2, "/b2", vec![20]),
            report_info(3, "/c", vec![3]),
        ])
    );
    absorb_processes(&mut held, &ProcessInfos::new());
    assert_eq!(held.len(), 3);
}

#[test]
fn processes_without_executable_are_left_out() {
    let processes = report_map(vec![
        report_info(1, "/a", vec![1]),
        report_info(2, "", vec![2]),
        report_info(3, "/c", Vec::new()),
    ]);
    let known = resolved_processes(&processes);
    assert_eq!(known, report_map(vec![report_info(1, "/a", vec![1]), report_info(3, "/c", Vec::new())]));
    assert!(resolved_processes(&ProcessInfos::new()).is_empty());
    assert_eq!(processes.len(), 3);
}

#[test]
fn every_flow_is_bound_against_the_processes() {
    let processes = report_map(vec![report_info(7, "/a", vec![42]), report_info(8, "", vec![43])]);
    let mut bound_before = report_flow(5003, 42);
    bound_before.process_id = 99;
    let mut flows = vec![report_flow(5000, 42), report_flow(5001, 43), report_flow(5002, 44), bound_before];
    bind_processes(&mut flows, &processes);
    let pids: Vec<i32> = flows.iter().map(|flow| flow.process_id).collect();
    assert_eq!(pids, vec![7, 8, 0, 99]);
    let ports: Vec<u16> = flows.iter().map(|flow| flow.source.port).collect();
    assert_eq!(ports, vec![5000, 5001, 5002, 5003]);
    assert!(flows.iter().all(|flow| flow.bytes_uploaded == 1 && flow.bytes_downloaded == 2));
}

#[test]
fn refresh_takes_over_what_was_published() {
    let mut flows = vec![report_flow(1, 1)];
    let mut processes = report_map(vec![report_info(5, "/old", vec![1])]);
    let latest_flows = Some(vec![report_flow(5000, 42), report_flow(5001, 1)]);
    let latest_processes = Some(report_map(vec![report_info(7, "/new", vec![42]), report_info(8, "", vec![9])]));
    let known = refresh(&mut flows, &mut processes, &latest_flows, &latest_processes);
    assert_eq!(flows.len(), 2);
    assert_eq!(flows[0].source.port, 5000);
    assert_eq!(flows[0].process_id, 7);
    assert_eq!(flows[1].source.port, 5001);
    assert_eq!(flows[1].process_id, 5);
    assert_eq!(processes.len(), 3);
    assert_eq!(known, report_map(vec![report_info(5, "/old", vec![1]), report_info(7, "/new", vec![42])]));
}

#[test]
fn refresh_without_news_rebinds_what_is_held() {
    let mut flows = vec![report_flow(5000, 42)];
    let mut processes = report_map(vec![report_info(7, "/a", vec![42])]);
    let known = refresh(&mut flows, &mut processes, &None, &None);
    assert_eq!(flows.len(), 1);
    assert_eq!(flows[0].process_id, 7);
    assert_eq!(processes.len(), 1);
    assert_eq!(known.len(), 1);
    let known = refresh(&mut flows, &mut processes, &Some(Vec::new()), &None);
    assert!(flows.is_empty());
    assert_eq!(known.len(), 1);
}
