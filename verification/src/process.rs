//! Processes and the sockets they hold: what the process sampler
//! reports, and the correlation of flows with their owning process.

use crate::connection::Connection;
use std::collections::HashMap;
use vstd::prelude::*;
use vstd::string::*;

verus! {

/// What the monitor knows of one process.
#[derive(Debug, PartialEq, Eq)]
pub struct ProcessInfo {
    pub pid: i32,
    /// The command line, its arguments separated by single spaces.
    pub command: String,
    /// Path of the executable; empty where it could not be resolved.
    pub executable: String,
    /// Inodes of the descriptors that the process holds open.
    pub inodes: Vec<u64>,
}

/// The latest knowledge of all processes, by process id.
pub type ProcessInfos = HashMap<i32, ProcessInfo>;

/// A process as a plain value.
pub struct ProcessInfoView {
    pub pid: i32,
    pub command: Seq<char>,
    pub executable: Seq<char>,
    pub inodes: Seq<u64>,
}

impl View for ProcessInfo {
    type V = ProcessInfoView;

    open spec fn view(&self) -> ProcessInfoView {
        ProcessInfoView {
            pid: self.pid,
            command: self.command@,
            executable: self.executable@,
            inodes: self.inodes@,
        }
    }
}

impl Clone for ProcessInfo {
    fn clone(&self) -> (copy: ProcessInfo)
        ensures
            copy@ == self@,
    {
        ProcessInfo {
            pid: self.pid,
            command: self.command.clone(),
            executable: self.executable.clone(),
            inodes: copy_of(&self.inodes),
        }
    }
}

/// A copy of a list of inodes.
fn copy_of(inodes: &Vec<u64>) -> (copy: Vec<u64>)
    ensures
        copy@ == inodes@,
{
    let mut copy: Vec<u64> = Vec::new();
    let mut i: usize = 0;
    while i < inodes.len()
        invariant
            i <= inodes.len(),
            copy@ == inodes@.take(i as int),
        decreases inodes.len() - i,
    {
        copy.push(inodes[i]);
        assert(inodes@.take(i + 1) == inodes@.take(i as int).push(inodes@[i as int]));
        i += 1;
    }
    assert(inodes@.take(i as int) == inodes@);
    copy
}

/// What an open file descriptor of a process refers to.
#[derive(Clone, Copy, Debug, PartialEq, Eq, Structural)]
pub enum FdTarget {
    /// A file or device with a path.
    Path,
    /// A socket, with its inode.
    Socket(u64),
    /// A network namespace handle, with its inode.
    Net(u64),
    /// A pipe, with its inode.
    Pipe(u64),
    /// A file without an inode of its own.
    AnonInode,
    /// A memory file.
    MemFd,
    /// Any other handle that bears an inode.
    Other(u64),
}

impl FdTarget {
    /// The inode that the descriptor bears, where it is a socket, a
    /// network handle, a pipe or another inode-bearing handle.
    pub open spec fn inode(self) -> Option<u64> {
        match self {
            FdTarget::Socket(inode) => Some(inode),
            FdTarget::Net(inode) => Some(inode),
            FdTarget::Pipe(inode) => Some(inode),
            FdTarget::Other(inode) => Some(inode),
            _ => None,
        }
    }

    /// Reads the inode that the descriptor bears, if any.
    pub fn bearing_inode(&self) -> (inode: Option<u64>)
        ensures
            inode == self.inode(),
    {
        match *self {
            FdTarget::Socket(inode) => Some(inode),
            FdTarget::Net(inode) => Some(inode),
            FdTarget::Pipe(inode) => Some(inode),
            FdTarget::Other(inode) => Some(inode),
            _ => None,
        }
    }
}

/// What one sweep of the process table read of one process, with the
/// empty value for each part that could not be read.
#[derive(Debug, PartialEq, Eq)]
pub struct ProcessRecord {
    pub pid: i32,
    /// Arguments of the command line.
    pub cmdline: Vec<String>,
    /// Path of the executable.
    pub executable: String,
    /// Targets of the open file descriptors.
    pub descriptors: Vec<FdTarget>,
}

/// The texts of a list of strings.
pub open spec fn texts(parts: Seq<String>) -> Seq<Seq<char>> {
    parts.map_values(|part: String| part@)
}

/// The parts in a row with the separator between each two of them.
pub open spec fn joined(parts: Seq<Seq<char>>, separator: Seq<char>) -> Seq<char>
    decreases parts.len(),
{
    if parts.len() == 0 {
        Seq::empty()
    } else if parts.len() == 1 {
        parts[0]
    } else {
        joined(parts.drop_last(), separator) + separator + parts.last()
    }
}

/// The inodes that a list of descriptors bears, in the list's order.
pub open spec fn borne_inodes(descriptors: Seq<FdTarget>) -> Seq<u64> {
    descriptors.filter_map(|target: FdTarget| target.inode())
}

/// What the monitor keeps of a process that a sweep read.
pub open spec fn described(record: ProcessRecord) -> ProcessInfoView {
    ProcessInfoView {
        pid: record.pid,
        command: joined(texts(record.cmdline@), " "@),
        executable: record.executable@,
        inodes: borne_inodes(record.descriptors@),
    }
}

/// The processes of a sweep by process id; of two records with one id
/// the later one stands.
pub open spec fn described_all(records: Seq<ProcessRecord>) -> Map<i32, ProcessInfoView>
    decreases records.len(),
{
    if records.len() == 0 {
        Map::empty()
    } else {
        described_all(records.drop_last()).insert(records.last().pid, described(records.last()))
    }
}

/// A map of processes as plain values.
pub open spec fn views(processes: Map<i32, ProcessInfo>) -> Map<i32, ProcessInfoView> {
    processes.map_values(|info: ProcessInfo| info@)
}

/// Joins `parts` with `separator` between each two of them.
pub fn join(parts: &Vec<String>, separator: &str) -> (text: String)
    ensures
        text@ == joined(texts(parts@), separator@),
{
    let mut text = String::new();
    let mut i: usize = 0;
    while i < parts.len()
        invariant
            i <= parts.len(),
            text@ == joined(texts(parts@).take(i as int), separator@),
        decreases parts.len() - i,
    {
        if i > 0 {
            text.append(separator);
        }
        text.append(parts[i].as_str());
        proof {
            let next = texts(parts@).take(i + 1);
            assert(next.drop_last() == texts(parts@).take(i as int));
            assert(next.last() == parts@[i as int]@);
        }
        i += 1;
    }
    assert(texts(parts@).take(i as int) == texts(parts@));
    text
}

/// Collects the inodes that a list of descriptors bears.
pub fn collect_inodes(descriptors: &Vec<FdTarget>) -> (inodes: Vec<u64>)
    ensures
        inodes@ == borne_inodes(descriptors@),
{
    let mut inodes: Vec<u64> = Vec::new();
    let mut i: usize = 0;
    while i < descriptors.len()
        invariant
            i <= descriptors.len(),
            inodes@ == borne_inodes(descriptors@.take(i as int)),
        decreases descriptors.len() - i,
    {
        proof {
            descriptors@.lemma_filter_map_take_succ(|target: FdTarget| target.inode(), i as int);
        }
        match descriptors[i].bearing_inode() {
            Some(inode) => {
                inodes.push(inode);
            },
            None => {},
        }
        i += 1;
    }
    assert(descriptors@.take(i as int) == descriptors@);
    inodes
}

/// Builds the process map of one sweep of the process table.
pub fn get_inodes_per_process(records: &Vec<ProcessRecord>) -> (process_infos: ProcessInfos)
    ensures
        views(process_infos@) == described_all(records@),
{
    broadcast use vstd::std_specs::hash::group_hash_axioms;

    let mut process_infos: ProcessInfos = HashMap::new();
    let mut i: usize = 0;
    assert(views(process_infos@) == described_all(records@.take(0)));
    while i < records.len()
        invariant
            i <= records.len(),
            views(process_infos@) == described_all(records@.take(i as int)),
        decreases records.len() - i,
    {
        let record = &records[i];
        let process_info = ProcessInfo {
            pid: record.pid,
            command: join(&record.cmdline, " "),
            executable: record.executable.clone(),
            inodes: collect_inodes(&record.descriptors),
        };
        let ghost before = process_infos@;
        process_infos.insert(record.pid, process_info);
        proof {
            let next = records@.take(i + 1);
            assert(next.drop_last() == records@.take(i as int));
            assert(next.last() == records@[i as int]);
            assert(views(process_infos@) == views(before).insert(record.pid, described(*record)));
        }
        i += 1;
    }
    assert(records@.take(i as int) == records@);
    process_infos
}

/// Process `pid` is known and holds a descriptor with inode `inode`.
pub open spec fn holds_inode(processes: Map<i32, ProcessInfo>, pid: i32, inode: u64) -> bool {
    processes.contains_key(pid) && processes[pid].inodes@.contains(inode)
}

/// Whether `inode` is one of `inodes`.
pub fn contains_inode(inodes: &Vec<u64>, inode: u64) -> (found: bool)
    ensures
        found == inodes@.contains(inode),
{
    let mut i: usize = 0;
    while i < inodes.len()
        invariant
            i <= inodes.len(),
            forall|j: int| 0 <= j < i ==> inodes@[j] != inode,
        decreases inodes.len() - i,
    {
        if inodes[i] == inode {
            return true;
        }
        i += 1;
    }
    false
}

/// Finds a process that holds `inode`: the first one that the walk over
/// the map meets, the order of which is not specified.
pub fn find_owner(processes: &ProcessInfos, inode: u64) -> (owner: Option<i32>)
    ensures
        match owner {
            Some(pid) => holds_inode(processes@, pid, inode),
            None => forall|pid: i32| !holds_inode(processes@, pid, inode),
        },
{
    broadcast use vstd::std_specs::hash::group_hash_axioms;

    for pair in it: processes.iter()
        invariant
            forall|k: int| 0 <= k < it.index() ==> !holds_inode(processes@, *it.seq()[k].0, inode),
    {
        let (pid, info) = pair;
        if contains_inode(&info.inodes, inode) {
            return Some(*pid);
        }
    }
    None
}

impl Connection {
    /// The flow's process is settled: it was known before, or no process
    /// holds the flow's inode, or `self` names one that does.
    pub open spec fn bound_from(self, before: Connection, processes: Map<i32, ProcessInfo>) -> bool {
        &&& self == Connection { process_id: self.process_id, ..before }
        &&& if before.process_id != 0 {
            self.process_id == before.process_id
        } else if exists|pid: i32| holds_inode(processes, pid, before.inode) {
            holds_inode(processes, self.process_id, before.inode)
        } else {
            self.process_id == 0
        }
    }

    /// Attaches the owning process to a flow whose process is not known
    /// yet: a process that holds the flow's inode, the first that is
    /// found. A process once attached is never replaced, and a flow that
    /// no process owns stays without one.
    pub fn bind_matching_process(&mut self, processes: &ProcessInfos)
        ensures
            final(self).bound_from(*old(self), processes@),
    {
        if self.process_id == 0 {
            match find_owner(processes, self.inode) {
                Some(pid) => {
                    self.process_id = pid;
                },
                None => {},
            }
        }
    }
}

} // verus!
