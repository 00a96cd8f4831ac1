//! Process records and the single-slot process table.

use vstd::prelude::*;

pub mod context;

use crate::process::context::Context;

verus! {

/// Process identifier.
pub type Pid = usize;

/// The identifier given to the first process.
pub const FIRST_PID: Pid = 1;

/// Where a process stands in its life.
#[derive(Debug, Clone, Copy, PartialEq, Eq, Structural)]
pub enum ProcessState {
    /// Ready to run.
    Ready,
    /// Currently executing.
    Running,
    /// Waiting for something.
    Blocked,
    /// Finished.
    Dead,
}

/// The kernel's record of a process.
#[derive(Debug)]
pub struct Process {
    pub pid: Pid,
    pub context: Context,
    pub state: ProcessState,
    pub name: &'static str,
}

impl Process {
    /// A process that is ready to start at `entry_point` on the stack at
    /// `stack`.
    pub fn new(pid: Pid, name: &'static str, entry_point: usize, stack: usize) -> (process: Self)
        ensures
            process.pid == pid,
            process.name == name,
            process.state == ProcessState::Ready,
            process.context == Context::spec_new_user(entry_point, stack),
    {
        Process { pid, context: Context::new_user(entry_point, stack), state: ProcessState::Ready, name }
    }

    /// Marks the process as running.
    pub fn set_running(&mut self)
        ensures
            *final(self) == (Process { state: ProcessState::Running, ..*old(self) }),
    {
        self.state = ProcessState::Running;
    }

    /// Marks the process as ready.
    pub fn set_ready(&mut self)
        ensures
            *final(self) == (Process { state: ProcessState::Ready, ..*old(self) }),
    {
        self.state = ProcessState::Ready;
    }
}

/// What the process table holds: the next identifier to hand out and the
/// process that is current, if any.
pub struct ProcessTableView {
    pub next_pid: Pid,
    pub current: Option<Process>,
}

/// The kernel's process bookkeeping: the identifier counter and the one slot
/// for the current process.
pub struct ProcessTable {
    next_pid: Pid,
    current: Option<Process>,
}

impl View for ProcessTable {
    type V = ProcessTableView;

    closed spec fn view(&self) -> ProcessTableView {
        ProcessTableView { next_pid: self.next_pid, current: self.current }
    }
}

impl ProcessTable {
    /// The identifier that the next allocation hands out.
    pub fn next_pid(&self) -> (pid: Pid)
        ensures
            pid == self@.next_pid,
    {
        self.next_pid
    }
}

/// The table as the kernel starts with it.
pub open spec fn spec_init() -> ProcessTableView {
    ProcessTableView { next_pid: FIRST_PID, current: None }
}

/// Handing out an identifier: the counter's value is the identifier, and the
/// counter moves on by one.
pub open spec fn spec_alloc_pid(table: ProcessTableView) -> (Pid, ProcessTableView)
    recommends
        table.next_pid < usize::MAX,
{
    (table.next_pid, ProcessTableView { next_pid: (table.next_pid + 1) as usize, ..table })
}

/// Making `process` current: whatever was current before is dropped.
pub open spec fn spec_set_current_process(
    table: ProcessTableView,
    process: Process,
) -> ProcessTableView {
    ProcessTableView { current: Some(process), ..table }
}

/// The identifier of the current process, or zero where none is current.
pub open spec fn spec_current_pid(table: ProcessTableView) -> Pid {
    match table.current {
        Some(process) => process.pid,
        None => 0,
    }
}

/// Sets up the process subsystem: no process is current, and identifiers
/// start at one.
pub fn init() -> (table: ProcessTable)
    ensures
        table@ == spec_init(),
{
    ProcessTable { next_pid: FIRST_PID, current: None }
}

/// Hands out a fresh process identifier.
///
/// The counter would wrap after the last identifier, so a table that has
/// handed that one out is not accepted.
pub fn alloc_pid(table: &mut ProcessTable) -> (pid: Pid)
    requires
        old(table)@.next_pid < usize::MAX,
    ensures
        (pid, final(table)@) == spec_alloc_pid(old(table)@),
{
    let pid = table.next_pid;
    table.next_pid = pid + 1;
    pid
}

/// The current process, if there is one.
pub fn current_process(table: &ProcessTable) -> (process: Option<&Process>)
    ensures
        match process {
            Some(p) => table@.current == Some(*p),
            None => table@.current.is_none(),
        },
{
    table.current.as_ref()
}

/// Makes `process` the current process, replacing any other.
pub fn set_current_process(table: &mut ProcessTable, process: Process)
    ensures
        final(table)@ == spec_set_current_process(old(table)@, process),
{
    table.current = Some(process);
}

/// One thing the kernel does with the process table.
pub enum TableOp {
    /// Hand out an identifier.
    AllocPid,
    /// Make a process current.
    SetCurrent(Process),
}

/// The table after `ops` have been applied in order.
pub open spec fn table_after(table: ProcessTableView, ops: Seq<TableOp>) -> ProcessTableView
    decreases ops.len(),
{
    if ops.len() == 0 {
        table
    } else {
        let before = table_after(table, ops.drop_last());
        match ops.last() {
            TableOp::AllocPid => spec_alloc_pid(before).1,
            TableOp::SetCurrent(process) => spec_set_current_process(before, process),
        }
    }
}

/// The identifiers handed out while `ops` were applied, in order.
pub open spec fn pids_allocated(table: ProcessTableView, ops: Seq<TableOp>) -> Seq<Pid>
    decreases ops.len(),
{
    if ops.len() == 0 {
        Seq::empty()
    } else {
        let earlier = pids_allocated(table, ops.drop_last());
        match ops.last() {
            TableOp::AllocPid => earlier.push(spec_alloc_pid(table_after(table, ops.drop_last())).0),
            TableOp::SetCurrent(_) => earlier,
        }
    }
}

/// Identifiers come out in strictly increasing order, whatever else is done
/// with the table in between: each is at least the counter's first value,
/// below the counter's last value, and larger than every one handed out
/// before it. So none is handed out twice.
pub proof fn lemma_pids_strictly_increase(table: ProcessTableView, ops: Seq<TableOp>)
    requires
        table.next_pid + ops.len() <= usize::MAX,
    ensures
        table.next_pid <= table_after(table, ops).next_pid <= table.next_pid + ops.len(),
        forall|i: int|
            0 <= i < pids_allocated(table, ops).len() ==> table.next_pid <= #[trigger] pids_allocated(
                table,
                ops,
            )[i] < table_after(table, ops).next_pid,
        forall|i: int, j: int|
            0 <= i < j < pids_allocated(table, ops).len() ==> pids_allocated(table, ops)[i]
                < pids_allocated(table, ops)[j],
    decreases ops.len(),
{
    if ops.len() > 0 {
        let shorter = ops.drop_last();
        lemma_pids_strictly_increase(table, shorter);
        let earlier = pids_allocated(table, shorter);
        let pids = pids_allocated(table, ops);
        assert forall|i: int| 0 <= i < pids.len() implies table.next_pid <= #[trigger] pids[i]
            < table_after(table, ops).next_pid by {
            if i < earlier.len() {
                assert(pids[i] == earlier[i]);
            }
        }
        assert forall|i: int, j: int| 0 <= i < j < pids.len() implies pids[i] < pids[j] by {
            assert(pids[i] == earlier[i]);
            if j < earlier.len() {
                assert(pids[j] == earlier[j]);
            }
        }
    }
}

} // verus!
