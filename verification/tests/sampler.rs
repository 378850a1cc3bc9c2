use flowmon::connection::{Connection, TransportType};
use flowmon::endpoint::{Endpoint, IpAddress};
use flowmon::flow_table::FlowTable;
use flowmon::sampler::{
    get_tcp_connection_inodes, prune_outdated_connections, sample_connections, update_connections,
    SocketEntry,
};
use flowmon::timestamp::Timestamp;

const SECOND: u128 = 1_000_000_000;

fn sampler_endpoint(last: u32, port: u16) -> Endpoint {
    Endpoint { ip: IpAddress::V4(0x0a00_0000 + last), port }
}

fn sampler_entry(local: u32, remote: u32, inode: u64) -> SocketEntry {
    SocketEntry {
        local_address: sampler_endpoint(local, 1000 + local as u16),
        remote_address: sampler_endpoint(remote, 2000 + remote as u16),
        inode,
    }
}

fn sampler_sighting(local: u32, remote: u32, inode: u64, at: u128) -> Connection {
    Connection::from_entry(TransportType::Tcp, &sampler_entry(local, remote, inode), Timestamp { nanos: at })
}

#[test]
fn socket_row_becomes_an_identity_only_flow() {
    let entry = sampler_entry(1, 2, 42);
    let now = Timestamp { nanos: 77 };
    let flow = Connection::from_entry(TransportType::Udp, &entry, now);
    assert_eq!(flow.source, entry.local_address);
    assert_eq!(flow.destination, entry.remote_address);
    assert_eq!(flow.inode, 42);
    assert_eq!(flow.process_id, 0);
    assert_eq!(flow.transport_type, TransportType::Udp);
    assert_eq!(flow.bytes_uploaded, 0);
    assert_eq!(flow.bytes_downloaded, 0);
    assert_eq!(flow.first_seen, now);
    assert_eq!(flow.last_seen, now);
}

#[test]
fn socket_tables_are_read_tcp_first() {
    let now = Timestamp { nanos: 5 };
    let v6 = SocketEntry {
        local_address: Endpoint { ip: IpAddress::V6(1), port: 10 },
        remote_address: Endpoint { ip: IpAddress::V6(2), port: 20 },
        inode: 3,
    };
    let flows = get_tcp_connection_inodes(
        &vec![sampler_entry(1, 2, 1), sampler_entry(1, 3, 2)],
        &vec![v6],
        &vec![sampler_entry(1, 4, 4)],
        &Vec::new(),
        now,
    );
    assert_eq!(flows.len(), 4);
    let inodes: Vec<u64> = flows.iter().map(|flow| flow.inode).collect();
    assert_eq!(inodes, vec![1, 2, 3, 4]);
    let transports: Vec<TransportType> = flows.iter().map(|flow| flow.transport_type).collect();
    assert_eq!(
        transports,
        vec![TransportType::Tcp, TransportType::Tcp, TransportType::Tcp, TransportType::Udp]
    );
    assert_eq!(flows[2].source, v6.local_address);
    assert_eq!(flows[2].destination, v6.remote_address);
    assert!(flows.iter().all(|flow| flow.last_seen == now && flow.first_seen == now));
}

#[test]
fn empty_socket_tables_give_no_flows() {
    let flows = get_tcp_connection_inodes(
        &Vec::new(),
        &Vec::new(),
        &Vec::new(),
        &Vec::new(),
        Timestamp { nanos: 0 },
    );
    assert!(flows.is_empty());
}

#[test]
fn sighting_refreshes_last_seen_only() {
    let mut set = FlowTable::new();
    update_connections(&mut set, &vec![sampler_sighting(1, 2, 42, 10)]);
    let mut again = sampler_sighting(1, 2, 99, 50);
    again.bytes_uploaded = 5;
    update_connections(&mut set, &vec![again]);
    assert_eq!(set.len(), 1);
    let flow = set.get(0);
    assert_eq!(flow.inode, 42);
    assert_eq!(flow.bytes_uploaded, 0);
    assert_eq!(flow.first_seen, Timestamp { nanos: 10 });
    assert_eq!(flow.last_seen, Timestamp { nanos: 50 });
}

#[test]
fn sighting_from_the_other_side_is_the_same_flow() {
    let mut set = FlowTable::new();
    let forward = sampler_sighting(1, 2, 42, 10);
    let mut backward = forward;
    backward.source = forward.destination;
    backward.destination = forward.source;
    backward.inode = 43;
    backward.last_seen = Timestamp { nanos: 30 };
    update_connections(&mut set, &vec![forward, backward]);
    assert_eq!(set.len(), 1);
    assert_eq!(set.get(0).source, forward.source);
    assert_eq!(set.get(0).inode, 42);
    assert_eq!(set.get(0).last_seen, Timestamp { nanos: 30 });
}

#[test]
fn new_sightings_are_entered_in_order() {
    let mut set = FlowTable::new();
    update_connections(&mut set, &vec![sampler_sighting(1, 2, 1, 10), sampler_sighting(1, 3, 2, 10)]);
    update_connections(&mut set, &vec![sampler_sighting(1, 4, 3, 20), sampler_sighting(1, 2, 1, 20)]);
    let inodes: Vec<u64> = set.snapshot().iter().map(|flow| flow.inode).collect();
    assert_eq!(inodes, vec![1, 2, 3]);
    assert_eq!(set.get(0).last_seen, Timestamp { nanos: 20 });
    assert_eq!(set.get(1).last_seen, Timestamp { nanos: 10 });
}

#[test]
fn outdated_connections_are_pruned_after_sixty_seconds() {
    let now = Timestamp { nanos: 1000 * SECOND };
    let mut set = FlowTable::new();
    update_connections(
        &mut set,
        &vec![
            sampler_sighting(1, 2, 1, 1000 * SECOND - 60 * SECOND),
            sampler_sighting(1, 3, 2, 1000 * SECOND - 60 * SECOND - 1),
            sampler_sighting(1, 4, 3, 1000 * SECOND - 60 * SECOND - 999_999_999),
            sampler_sighting(1, 5, 4, 1000 * SECOND - 61 * SECOND),
            sampler_sighting(1, 6, 5, 1000 * SECOND),
            sampler_sighting(1, 7, 6, 1001 * SECOND),
        ],
    );
    prune_outdated_connections(&mut set, now);
    let inodes: Vec<u64> = set.snapshot().iter().map(|flow| flow.inode).collect();
    assert_eq!(inodes, vec![1, 5, 6]);
}

#[test]
fn pruning_an_empty_set_leaves_it_empty() {
    let mut set = FlowTable::new();
    prune_outdated_connections(&mut set, Timestamp { nanos: 1000 * SECOND });
    assert_eq!(set.len(), 0);
}

#[test]
fn sampler_pass_notes_prunes_and_publishes() {
    let mut set = FlowTable::new();
    let first = sample_connections(
        &mut set,
        &vec![sampler_sighting(1, 2, 1, 0), sampler_sighting(1, 3, 2, 0)],
        Timestamp { nanos: 0 },
    );
    assert_eq!(first.len(), 2);
    let second = sample_connections(
        &mut set,
        &vec![sampler_sighting(1, 3, 2, 100 * SECOND)],
        Timestamp { nanos: 100 * SECOND },
    );
    assert_eq!(second.len(), 1);
    assert_eq!(second[0].inode, 2);
    assert_eq!(second[0].first_seen, Timestamp { nanos: 0 });
    assert_eq!(second[0].last_seen, Timestamp { nanos: 100 * SECOND });
    assert_eq!(set.len(), 1);
    assert_eq!(first.len(), 2);
}
