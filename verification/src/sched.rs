//! The process table and the scheduler's decisions: registration,
//! blocking and waking, picking the next tenant, and recording what a
//! tenant's run produced. The runtime performs each run and reports its
//! outcome back.

use vstd::prelude::*;
use crate::error::KernelError;
use crate::cap::cspace::MAX_PROCS;

verus! {

/// Isolation tier of a module.
#[derive(Debug, Clone, Copy, PartialEq, Eq, Structural)]
pub enum Tier {
    /// Untrusted tenant code.
    One,
    /// Signed driver code.
    Two,
}

/// Which module a process runs.
#[derive(Debug, Clone, Copy, PartialEq, Eq, Structural)]
pub enum ModuleId {
    /// The embedded Tier-1 hello app.
    Tier1Hello,
    /// The Tier-2 UART driver.
    Tier2Uart,
    /// The Tier-2 net driver.
    Tier2Net,
    /// A module staged at run time in the given registry slot.
    Dynamic(u8),
}

/// Why a process is blocked.
#[derive(Debug, Clone, Copy, PartialEq, Eq, Structural)]
pub enum BlockReason {
    /// Waiting for a receiver to take its message.
    SendWait,
    /// Waiting for a sender.
    RecvWait,
    /// A call waiting for a receiver.
    CallWait,
    /// A call waiting for its reply.
    ReplyWait,
}

/// Life-cycle state of a process.
#[derive(Debug, Clone, Copy, PartialEq, Eq, Structural)]
pub enum ProcessState {
    /// Runnable.
    Ready,
    /// Currently executing.
    Running,
    /// Waiting on endpoint `ep_idx`.
    Blocked { reason: BlockReason, ep_idx: u8 },
    /// Finished with an exit code.
    Exited(i32),
    /// Killed after a fault.
    Faulted,
    /// A loaded driver that is never scheduled.
    Library,
}

/// Marker for "no message buffer recorded".
pub const NO_MSG_BUF: u32 = 0xFFFF_FFFF;

/// An IPC message: a badge and four words.
#[derive(Debug, Clone, Copy)]
pub struct MsgRegs {
    /// The sender's badge.
    pub badge: u64,
    /// Payload words.
    pub words: [u64; 4],
}

impl MsgRegs {
    /// The all-zero message.
    pub fn zero() -> (r: Self)
        ensures
            r.badge == 0,
            r.words@ == seq![0u64, 0u64, 0u64, 0u64],
    {
        let r = MsgRegs { badge: 0, words: [0u64; 4] };
        assert(r.words@ =~= seq![0u64, 0u64, 0u64, 0u64]);
        r
    }
}

/// Copy a message into a process's message registers.
pub fn transfer_msg(src: &MsgRegs, dst: &mut MsgRegs)
    ensures
        *final(dst) == *src,
{
    *dst = *src;
}

/// One process-table entry.
#[derive(Clone, Copy)]
pub struct Process {
    /// Index of the process in the table and its CSpace.
    pub proc_id: u8,
    /// The module's tier.
    pub tier: Tier,
    /// The module the process runs.
    pub module_id: ModuleId,
    /// Life-cycle state.
    pub state: ProcessState,
    /// Kernel-side message registers.
    pub msg_regs: MsgRegs,
    /// Linear-memory offset where a delivered message is flushed, or
    /// `NO_MSG_BUF`.
    pub msg_buf: u32,
}

/// Is `pr` a freshly created process with the given identity and
/// state?
pub open spec fn fresh_process(pr: Process, proc_id: u8, tier: Tier, module_id: ModuleId, state: ProcessState) -> bool {
    &&& pr.proc_id == proc_id
    &&& pr.tier == tier
    &&& pr.module_id == module_id
    &&& pr.state == state
    &&& pr.msg_buf == NO_MSG_BUF
    &&& pr.msg_regs.badge == 0
    &&& pr.msg_regs.words@ == seq![0u64, 0u64, 0u64, 0u64]
}

impl Process {
    /// A runnable tenant.
    pub fn new(proc_id: u8, tier: Tier, module_id: ModuleId) -> (r: Self)
        ensures
            fresh_process(r, proc_id, tier, module_id, ProcessState::Ready),
    {
        Process { proc_id, tier, module_id, state: ProcessState::Ready, msg_regs: MsgRegs::zero(), msg_buf: NO_MSG_BUF }
    }

    /// A loaded driver that is never scheduled.
    pub fn new_library(proc_id: u8, tier: Tier, module_id: ModuleId) -> (r: Self)
        ensures
            fresh_process(r, proc_id, tier, module_id, ProcessState::Library),
    {
        Process { proc_id, tier, module_id, state: ProcessState::Library, msg_regs: MsgRegs::zero(), msg_buf: NO_MSG_BUF }
    }

    /// Block on endpoint `ep_idx` for `reason`.
    pub fn block(&mut self, reason: BlockReason, ep_idx: u8)
        ensures
            *final(self) == (Process { state: ProcessState::Blocked { reason, ep_idx }, ..*old(self) }),
    {
        self.state = ProcessState::Blocked { reason, ep_idx };
    }

    /// Move a blocked process to `Ready`; `false` (and no change) for
    /// any other state.
    pub fn wake(&mut self) -> (r: bool)
        ensures
            r == (old(self).state is Blocked),
            r ==> *final(self) == (Process { state: ProcessState::Ready, ..*old(self) }),
            !r ==> *final(self) == *old(self),
    {
        match self.state {
            ProcessState::Blocked { .. } => {
                self.state = ProcessState::Ready;
                true
            },
            _ => false,
        }
    }

    /// Is the process blocked?
    pub fn is_blocked(&self) -> (r: bool)
        ensures
            r == (self.state is Blocked),
    {
        match self.state {
            ProcessState::Blocked { .. } => true,
            _ => false,
        }
    }
}

/// The process table, one entry per process id.
pub struct Scheduler {
    /// `procs[p]` is process `p`, if registered.
    pub procs: Vec<Option<Process>>,
}

/// Lowest process id at or after `i` whose state is `Ready`, if any.
pub open spec fn first_ready(procs: Seq<Option<Process>>, i: int) -> Option<u8>
    decreases procs.len() - i,
{
    if i < 0 || i >= procs.len() {
        None
    } else if is_ready(procs[i]) {
        Some(i as u8)
    } else {
        first_ready(procs, i + 1)
    }
}

/// Lowest process id whose state is `Ready`, if any.
pub open spec fn next_ready(procs: Seq<Option<Process>>) -> Option<u8> {
    first_ready(procs, 0)
}

/// A registered process in state `Ready`.
pub open spec fn is_ready(e: Option<Process>) -> bool {
    e matches Some(p) && p.state == ProcessState::Ready
}

/// A registered process in state `Blocked`.
pub open spec fn is_blocked_entry(e: Option<Process>) -> bool {
    e matches Some(p) && p.state is Blocked
}

/// Number of blocked processes in `procs`.
pub open spec fn blocked_count(procs: Seq<Option<Process>>) -> nat
    decreases procs.len(),
{
    if procs.len() == 0 {
        0
    } else {
        blocked_count(procs.drop_last()) + if is_blocked_entry(procs[procs.len() - 1]) {
            1nat
        } else {
            0nat
        }
    }
}

proof fn lemma_blocked_count_bound(procs: Seq<Option<Process>>)
    ensures
        blocked_count(procs) <= procs.len(),
    decreases procs.len(),
{
    if procs.len() > 0 {
        lemma_blocked_count_bound(procs.drop_last());
    }
}

/// What one scheduling step of a tenant produced.
#[derive(Debug, Clone, Copy, PartialEq, Eq, Structural)]
pub enum StepOutcome {
    /// The tenant finished with an exit code.
    Exited(i32),
    /// The tenant suspended on an IPC wait; it has already blocked
    /// itself.
    Blocked,
    /// The tenant trapped or broke the yield protocol.
    Faulted,
}

/// What the runtime should do next.
#[derive(Debug, Clone, Copy, PartialEq, Eq, Structural)]
pub enum SchedAction {
    /// Run (start or resume) tenant `proc_id`, which now is `Running`.
    Step { proc_id: u8, module_id: ModuleId },
    /// No tenant is runnable; `blocked` tenants remain blocked forever.
    Idle { blocked: usize },
}

/// The state a finished step leaves its process in, given its state
/// when the step returned: `None` leaves it as it is.
pub open spec fn settled_state(cur: ProcessState, o: StepOutcome) -> Option<ProcessState> {
    match o {
        StepOutcome::Exited(c) => Some(ProcessState::Exited(c)),
        StepOutcome::Faulted => Some(ProcessState::Faulted),
        StepOutcome::Blocked => if cur is Blocked {
            None
        } else {
            Some(ProcessState::Faulted)
        },
    }
}

/// The table after the finished step's outcome is recorded: `None` for
/// a step of a process that is not registered.
pub open spec fn settled_table(ps: Seq<Option<Process>>, finished: Option<(u8, StepOutcome)>) -> Option<
    Seq<Option<Process>>,
> {
    match finished {
        None => Some(ps),
        Some((p, o)) => if p < MAX_PROCS && ps[p as int] is Some {
            let pr = ps[p as int]->Some_0;
            match settled_state(pr.state, o) {
                None => Some(ps),
                Some(st) => Some(ps.update(p as int, Some(Process { state: st, ..pr }))),
            }
        } else {
            None
        },
    }
}

/// The tenant whose instance must be released: one that yielded without
/// blocking itself.
pub open spec fn released(ps: Seq<Option<Process>>, finished: Option<(u8, StepOutcome)>) -> Option<u8> {
    match finished {
        Some((p, StepOutcome::Blocked)) => if p < MAX_PROCS && ps[p as int] is Some && !(ps[p as int]->Some_0.state is Blocked) {
            Some(p)
        } else {
            None
        },
        _ => None,
    }
}

/// One scheduler decision on table `ps` after step `finished`: the
/// action, the tenant to release and the new table; `None` when the
/// finished step names no registered process.
pub open spec fn sched_step(ps: Seq<Option<Process>>, finished: Option<(u8, StepOutcome)>) -> Option<
    (SchedAction, Option<u8>, Seq<Option<Process>>),
> {
    match settled_table(ps, finished) {
        None => None,
        Some(m) => match next_ready(m) {
            None => Some((SchedAction::Idle { blocked: blocked_count(m) as usize }, released(ps, finished), m)),
            Some(i) => Some((
                SchedAction::Step { proc_id: i, module_id: m[i as int]->Some_0.module_id },
                released(ps, finished),
                m.update(i as int, Some(Process { state: ProcessState::Running, ..m[i as int]->Some_0 })),
            )),
        },
    }
}

impl Scheduler {
    /// One entry per process id.
    pub open spec fn wf(&self) -> bool {
        self.procs@.len() == MAX_PROCS
    }

    /// An empty process table.
    pub fn new() -> (r: Self)
        ensures
            r.wf(),
            forall|i: int| 0 <= i < MAX_PROCS ==> (#[trigger] r.procs@[i]) is None,
    {
        let mut procs: Vec<Option<Process>> = Vec::new();
        let mut i: usize = 0;
        while i < MAX_PROCS
            invariant
                i <= MAX_PROCS,
                procs@.len() == i,
                forall|j: int| 0 <= j < i ==> (#[trigger] procs@[j]) is None,
            decreases MAX_PROCS - i,
        {
            procs.push(None);
            i = i + 1;
        }
        Scheduler { procs }
    }

    /// Register a Tier-2 driver as a library process (loaded, never
    /// scheduled). `InvalidArgument` if `proc_id` is out of range or
    /// already registered.
    pub fn register_library(&mut self, proc_id: u8, tier: Tier, module_id: ModuleId) -> (r: Result<
        (),
        KernelError,
    >)
        requires
            old(self).wf(),
        ensures
            final(self).wf(),
            (proc_id >= MAX_PROCS || old(self).procs@[proc_id as int] is Some) ==> r == Err::<
                (),
                KernelError,
            >(KernelError::InvalidArgument) && final(self).procs@ == old(self).procs@,
            (proc_id < MAX_PROCS && old(self).procs@[proc_id as int] is None) ==> r is Ok && (
            final(self).procs@[proc_id as int] matches Some(pr) && fresh_process(
                pr,
                proc_id,
                tier,
                module_id,
                ProcessState::Library,
            )) && final(self).procs@ == old(self).procs@.update(
                proc_id as int,
                final(self).procs@[proc_id as int],
            ),
    {
        if proc_id as usize >= MAX_PROCS {
            return Err(KernelError::InvalidArgument);
        }
        if self.procs[proc_id as usize].is_some() {
            return Err(KernelError::InvalidArgument);
        }
        self.procs.set(proc_id as usize, Some(Process::new_library(proc_id, tier, module_id)));
        Ok(())
    }

    /// Register a Tier-1 tenant in the `Ready` state.
    /// `InvalidArgument` if `proc_id` is out of range or already
    /// registered.
    pub fn register_tenant(&mut self, proc_id: u8, tier: Tier, module_id: ModuleId) -> (r: Result<
        (),
        KernelError,
    >)
        requires
            old(self).wf(),
        ensures
            final(self).wf(),
            (proc_id >= MAX_PROCS || old(self).procs@[proc_id as int] is Some) ==> r == Err::<
                (),
                KernelError,
            >(KernelError::InvalidArgument) && final(self).procs@ == old(self).procs@,
            (proc_id < MAX_PROCS && old(self).procs@[proc_id as int] is None) ==> r is Ok && (
            final(self).procs@[proc_id as int] matches Some(pr) && fresh_process(
                pr,
                proc_id,
                tier,
                module_id,
                ProcessState::Ready,
            )) && final(self).procs@ == old(self).procs@.update(
                proc_id as int,
                final(self).procs@[proc_id as int],
            ),
    {
        if proc_id as usize >= MAX_PROCS {
            return Err(KernelError::InvalidArgument);
        }
        if self.procs[proc_id as usize].is_some() {
            return Err(KernelError::InvalidArgument);
        }
        self.procs.set(proc_id as usize, Some(Process::new(proc_id, tier, module_id)));
        Ok(())
    }

    /// Wake a blocked process into `Ready`. `InvalidArgument` if
    /// `proc_id` is out of range; `NoSuchProcess` if the entry is
    /// empty or the process is not blocked.
    pub fn wake(&mut self, proc_id: u8) -> (r: Result<(), KernelError>)
        requires
            old(self).wf(),
        ensures
            final(self).wf(),
            proc_id >= MAX_PROCS ==> r == Err::<(), KernelError>(KernelError::InvalidArgument)
                && final(self).procs@ == old(self).procs@,
            proc_id < MAX_PROCS && !is_blocked_entry(old(self).procs@[proc_id as int]) ==> r == Err::<
                (),
                KernelError,
            >(KernelError::NoSuchProcess) && final(self).procs@ == old(self).procs@,
            proc_id < MAX_PROCS && is_blocked_entry(old(self).procs@[proc_id as int]) ==> r is Ok
                && final(self).procs@ == old(self).procs@.update(
                proc_id as int,
                Some(
                    Process {
                        state: ProcessState::Ready,
                        ..old(self).procs@[proc_id as int]->Some_0
                    },
                ),
            ),
    {
        if proc_id as usize >= MAX_PROCS {
            return Err(KernelError::InvalidArgument);
        }
        let mut pr = match self.procs[proc_id as usize] {
            Some(p) => p,
            None => return Err(KernelError::NoSuchProcess),
        };
        if pr.wake() {
            self.procs.set(proc_id as usize, Some(pr));
            Ok(())
        } else {
            Err(KernelError::NoSuchProcess)
        }
    }

    /// The lowest process id in state `Ready`, if any.
    pub fn pick_next_tenant(&self) -> (r: Option<u8>)
        requires
            self.wf(),
        ensures
            r == next_ready(self.procs@),
            r matches Some(i) ==> i < MAX_PROCS && is_ready(self.procs@[i as int]) && forall|j: int|
                0 <= j < i ==> !is_ready(#[trigger] self.procs@[j]),
            r is None ==> forall|j: int| 0 <= j < MAX_PROCS ==> !is_ready(#[trigger] self.procs@[j]),
    {
        let mut i: usize = 0;
        while i < MAX_PROCS
            invariant
                self.wf(),
                i <= MAX_PROCS,
                forall|j: int| 0 <= j < i ==> !is_ready(#[trigger] self.procs@[j]),
                first_ready(self.procs@, 0) == first_ready(self.procs@, i as int),
            decreases MAX_PROCS - i,
        {
            match self.procs[i] {
                Some(p) => match p.state {
                    ProcessState::Ready => {
                        return Some(i as u8);
                    },
                    _ => {},
                },
                None => {},
            }
            i = i + 1;
        }
        None
    }

    /// Number of processes currently blocked.
    pub fn count_blocked(&self) -> (r: usize)
        requires
            self.wf(),
        ensures
            r == blocked_count(self.procs@),
    {
        let mut n: usize = 0;
        let mut i: usize = 0;
        while i < MAX_PROCS
            invariant
                self.wf(),
                i <= MAX_PROCS,
                n == blocked_count(self.procs@.take(i as int)),
                n <= i,
            decreases MAX_PROCS - i,
        {
            proof {
                assert(self.procs@.take(i as int + 1).drop_last() =~= self.procs@.take(i as int));
            }
            let b = match self.procs[i] {
                Some(p) => p.is_blocked(),
                None => false,
            };
            if b {
                n = n + 1;
            }
            i = i + 1;
        }
        proof {
            assert(self.procs@.take(MAX_PROCS as int) =~= self.procs@);
        }
        n
    }

    /// One scheduler decision. `finished` reports the outcome of the
    /// step just run, if any: the process moves to `Exited` or
    /// `Faulted`, or, after a yield, stays `Blocked` if it blocked
    /// itself and is faulted (and its instance must be released) if
    /// it did not. Then the lowest `Ready` tenant is marked `Running`
    /// and returned to be stepped; with none left the scheduler idles.
    /// Returns the action and, when the finished tenant must be
    /// released, its id.
    pub fn run(&mut self, finished: Option<(u8, StepOutcome)>) -> (r: Result<
        (SchedAction, Option<u8>),
        KernelError,
    >)
        requires
            old(self).wf(),
        ensures
            final(self).wf(),
            match sched_step(old(self).procs@, finished) {
                None => r == Err::<(SchedAction, Option<u8>), KernelError>(KernelError::NoSuchProcess)
                    && final(self).procs@ == old(self).procs@,
                Some((a, rel, ps)) => r == Ok::<(SchedAction, Option<u8>), KernelError>((a, rel))
                    && final(self).procs@ == ps,
            },
            r matches Ok((SchedAction::Step { proc_id, module_id }, _)) ==> {
                &&& proc_id < MAX_PROCS
                &&& old(self).procs@[proc_id as int] matches Some(pr) && pr.state == ProcessState::Ready
                    && module_id == pr.module_id
                &&& final(self).procs@[proc_id as int] matches Some(q) && q.state == ProcessState::Running
                    && q.module_id == module_id
            },
    {
        let mut release: Option<u8> = None;
        match finished {
            None => {},
            Some((p, o)) => {
                if p as usize >= MAX_PROCS {
                    return Err(KernelError::NoSuchProcess);
                }
                let pr = match self.procs[p as usize] {
                    Some(x) => x,
                    None => return Err(KernelError::NoSuchProcess),
                };
                let st: Option<ProcessState> = match o {
                    StepOutcome::Exited(c) => Some(ProcessState::Exited(c)),
                    StepOutcome::Faulted => Some(ProcessState::Faulted),
                    StepOutcome::Blocked => if pr.is_blocked() {
                        None
                    } else {
                        release = Some(p);
                        Some(ProcessState::Faulted)
                    },
                };
                match st {
                    Some(s) => {
                        let mut pr2 = pr;
                        pr2.state = s;
                        self.procs.set(p as usize, Some(pr2));
                    },
                    None => {},
                }
            },
        }
        match self.pick_next_tenant() {
            None => {
                let blocked = self.count_blocked();
                Ok((SchedAction::Idle { blocked }, release))
            },
            Some(i) => {
                let pr = match self.procs[i as usize] {
                    Some(x) => x,
                    None => return Err(KernelError::NoSuchProcess),
                };
                let mut pr2 = pr;
                pr2.state = ProcessState::Running;
                self.procs.set(i as usize, Some(pr2));
                Ok((SchedAction::Step { proc_id: i, module_id: pr.module_id }, release))
            },
        }
    }
}


/// Drive the scheduler from table `ps` after step `finished`, the steps
/// it asks for ending with `outs` in order, nothing else changing the
/// table between decisions: the final table, the tenants started in
/// order, and whether the scheduler went idle.
pub open spec fn sched_drive(ps: Seq<Option<Process>>, finished: Option<(u8, StepOutcome)>, outs: Seq<StepOutcome>) -> (
    Seq<Option<Process>>,
    Seq<u8>,
    bool,
)
    decreases outs.len(),
{
    match sched_step(ps, finished) {
        None => (ps, Seq::empty(), false),
        Some((SchedAction::Idle { .. }, _, m)) => (m, Seq::empty(), true),
        Some((SchedAction::Step { proc_id, .. }, _, m)) => if outs.len() == 0 {
            (m, seq![proc_id], false)
        } else {
            let (f, st, idle) = sched_drive(m, Some((proc_id, outs[0])), outs.drop_first());
            (f, seq![proc_id] + st, idle)
        },
    }
}

/// Is `e` a registered process in state `Running`?
pub open spec fn is_running(e: Option<Process>) -> bool {
    e matches Some(p) && p.state == ProcessState::Running
}

/// What holds between decisions of a drive that started from `p0`:
/// entries that were not ready are untouched; a ready one is still ready,
/// running, exited or faulted; none below `lo` is ready; exactly the
/// tenant of `finished`, if any, is running, and it lies below `lo`.
pub open spec fn drive_inv(p0: Seq<Option<Process>>, ps: Seq<Option<Process>>, finished: Option<(u8, StepOutcome)>, lo: int) -> bool {
    &&& p0.len() == MAX_PROCS
    &&& ps.len() == MAX_PROCS
    &&& 0 <= lo <= MAX_PROCS
    &&& forall|j: int|
        0 <= j < MAX_PROCS ==> {
            &&& !is_running(#[trigger] p0[j])
            &&& !is_ready(p0[j]) ==> ps[j] == p0[j]
            &&& is_ready(p0[j]) ==> (ps[j] matches Some(q) && (q.state == ProcessState::Ready || q.state
                == ProcessState::Running || q.state is Exited || q.state == ProcessState::Faulted))
            &&& j < lo ==> !is_ready(ps[j])
            &&& is_running(ps[j]) <==> (finished matches Some((p, _)) && p == j)
        }
    &&& finished matches Some((p, _)) ==> p < lo
}

proof fn lemma_first_ready_none(ps: Seq<Option<Process>>, i: int)
    requires
        0 <= i,
        first_ready(ps, i) is None,
    ensures
        forall|j: int| i <= j < ps.len() ==> !is_ready(#[trigger] ps[j]),
    decreases ps.len() - i,
{
    if i < ps.len() {
        lemma_first_ready_none(ps, i + 1);
    }
}

proof fn lemma_first_ready_some(ps: Seq<Option<Process>>, i: int)
    requires
        0 <= i,
        ps.len() <= 256,
    ensures
        first_ready(ps, i) matches Some(k) ==> i <= k < ps.len() && is_ready(ps[k as int]) && forall|j: int|
            i <= j < k ==> !is_ready(#[trigger] ps[j]),
    decreases ps.len() - i,
{
    if i < ps.len() && !is_ready(ps[i]) {
        lemma_first_ready_some(ps, i + 1);
    }
}

proof fn lemma_drive_step(p0: Seq<Option<Process>>, ps: Seq<Option<Process>>, finished: Option<(u8, StepOutcome)>, lo: int)
    requires
        drive_inv(p0, ps, finished, lo),
    ensures
        sched_step(ps, finished) matches Some((a, _, m)) && match a {
            SchedAction::Idle { .. } => forall|j: int|
                0 <= j < MAX_PROCS ==> !is_ready(#[trigger] m[j]) && !is_running(m[j]) && (!is_ready(p0[j]) ==> m[j]
                    == p0[j]) && (is_ready(p0[j]) ==> (m[j] matches Some(q) && (q.state is Exited || q.state
                    == ProcessState::Faulted))),
            SchedAction::Step { proc_id, .. } => lo <= proc_id < MAX_PROCS && forall|o: StepOutcome|
                #[trigger] drive_inv(p0, m, Some((proc_id, o)), proc_id + 1),
        },
{
    let mid = settled_table(ps, finished);
    match finished {
        Some((p, o)) => {
            assert(!is_running(p0[p as int]));
            assert(is_running(ps[p as int]));
        },
        None => {},
    }
    let m0 = mid->Some_0;
    assert(m0.len() == MAX_PROCS);
    assert forall|j: int| 0 <= j < MAX_PROCS implies !is_running(#[trigger] m0[j]) && (!is_ready(p0[j]) ==> m0[j]
        == p0[j]) && (is_ready(p0[j]) ==> (m0[j] matches Some(q) && (q.state == ProcessState::Ready || q.state
        is Exited || q.state == ProcessState::Faulted))) && (j < lo ==> !is_ready(m0[j])) by {
        assert(!is_running(p0[j]));
        match finished {
            Some((p, o)) => {
                if j == p {
                    assert(is_running(ps[j]));
                    assert(is_ready(p0[j]));
                } else {
                    assert(m0[j] == ps[j]);
                }
            },
            None => {},
        }
    }
    lemma_first_ready_some(m0, 0);
    match next_ready(m0) {
        None => {
            lemma_first_ready_none(m0, 0);
        },
        Some(k) => {
            assert(k >= lo);
            let m = m0.update(k as int, Some(Process { state: ProcessState::Running, ..m0[k as int]->Some_0 }));
            assert forall|o: StepOutcome| #[trigger] drive_inv(p0, m, Some((k, o)), k + 1) by {
                assert forall|j: int| 0 <= j < MAX_PROCS implies {
                    &&& !is_ready(#[trigger] p0[j]) ==> m[j] == p0[j]
                    &&& is_ready(p0[j]) ==> (m[j] matches Some(q) && (q.state == ProcessState::Ready || q.state
                        == ProcessState::Running || q.state is Exited || q.state == ProcessState::Faulted))
                    &&& j < k + 1 ==> !is_ready(m[j])
                    &&& is_running(m[j]) <==> (Some((k, o)) matches Some((p, _)) && p == j)
                } by {
                    if j != k {
                        assert(m[j] == m0[j]);
                    } else {
                        assert(is_ready(m0[j]));
                        if !is_ready(p0[j]) {
                            assert(m0[j] == p0[j]);
                        }
                    }
                }
            }
        },
    }
}

proof fn lemma_drive(p0: Seq<Option<Process>>, ps: Seq<Option<Process>>, finished: Option<(u8, StepOutcome)>, lo: int, outs: Seq<StepOutcome>)
    requires
        drive_inv(p0, ps, finished, lo),
    ensures
        ({
            let (f, st, idle) = sched_drive(ps, finished, outs);
            &&& forall|k: int| 0 <= k < st.len() ==> lo <= #[trigger] st[k] < MAX_PROCS
            &&& forall|k1: int, k2: int| 0 <= k1 < k2 < st.len() ==> #[trigger] st[k1] < #[trigger] st[k2]
            &&& idle ==> forall|j: int|
                0 <= j < MAX_PROCS ==> !is_ready(#[trigger] f[j]) && !is_running(f[j]) && (!is_ready(p0[j]) ==> f[j]
                    == p0[j]) && (is_ready(p0[j]) ==> (f[j] matches Some(q) && (q.state is Exited || q.state
                    == ProcessState::Faulted)))
        }),
    decreases outs.len(),
{
    lemma_drive_step(p0, ps, finished, lo);
    match sched_step(ps, finished) {
        Some((SchedAction::Step { proc_id, .. }, _, m)) => {
            if outs.len() > 0 {
                assert(drive_inv(p0, m, Some((proc_id, outs[0])), proc_id + 1));
                lemma_drive(p0, m, Some((proc_id, outs[0])), proc_id + 1, outs.drop_first());
                let (f, st, idle) = sched_drive(m, Some((proc_id, outs[0])), outs.drop_first());
                let all = seq![proc_id] + st;
                assert forall|k1: int, k2: int| 0 <= k1 < k2 < all.len() implies #[trigger] all[k1] < #[trigger] all[k2] by {
                    if k1 == 0 {
                        assert(all[k2] == st[k2 - 1]);
                    } else {
                        assert(all[k1] == st[k1 - 1] && all[k2] == st[k2 - 1]);
                    }
                }
                assert forall|k: int| 0 <= k < all.len() implies lo <= #[trigger] all[k] < MAX_PROCS by {
                    if k > 0 {
                        assert(all[k] == st[k - 1]);
                    }
                }
            }
        },
        _ => {},
    }
}

/// Running the scheduler until it idles, when nothing but its own
/// decisions changes the table (no tenant blocks or is woken by IPC):
/// it starts tenants in strictly ascending process-id order, and when it
/// idles no process is `Ready` or `Running`, every process that was
/// `Ready` has `Exited` or `Faulted`, and every other entry (libraries,
/// empty ids, finished or blocked processes) is as it was.
pub proof fn lemma_run_to_idle(p0: Seq<Option<Process>>, outs: Seq<StepOutcome>)
    requires
        p0.len() == MAX_PROCS,
        forall|j: int| 0 <= j < MAX_PROCS ==> !is_running(#[trigger] p0[j]),
    ensures
        ({
            let (f, st, idle) = sched_drive(p0, None, outs);
            &&& forall|k1: int, k2: int| 0 <= k1 < k2 < st.len() ==> #[trigger] st[k1] < #[trigger] st[k2]
            &&& idle ==> forall|j: int|
                0 <= j < MAX_PROCS ==> !is_ready(#[trigger] f[j]) && !is_running(f[j]) && (!is_ready(p0[j]) ==> f[j]
                    == p0[j]) && (is_ready(p0[j]) ==> (f[j] matches Some(q) && (q.state is Exited || q.state
                    == ProcessState::Faulted)))
        }),
{
    assert(drive_inv(p0, p0, None, 0));
    lemma_drive(p0, p0, None, 0, outs);
}

/// When the scheduler idles, no process is `Ready`.
pub proof fn lemma_idle_only_when_none_ready(ps: Seq<Option<Process>>, finished: Option<(u8, StepOutcome)>)
    ensures
        sched_step(ps, finished) matches Some((SchedAction::Idle { .. }, _, m)) ==> forall|j: int|
            0 <= j < m.len() ==> !is_ready(#[trigger] m[j]),
{
    if let Some(m) = settled_table(ps, finished) {
        if next_ready(m) is None {
            lemma_first_ready_none(m, 0);
        }
    }
}


/// A step decision starts a tenant that was `Ready` (never the one whose
/// step just finished), reports that tenant's own module, and leaves it
/// `Running`; no lower process id was `Ready` once the finished step was
/// recorded.
pub proof fn lemma_step_picks_ready_tenant(ps: Seq<Option<Process>>, finished: Option<(u8, StepOutcome)>)
    requires
        ps.len() == MAX_PROCS,
    ensures
        sched_step(ps, finished) matches Some((SchedAction::Step { proc_id, module_id }, _, m)) ==> {
            &&& proc_id < MAX_PROCS
            &&& is_ready(ps[proc_id as int])
            &&& module_id == ps[proc_id as int]->Some_0.module_id
            &&& (finished matches Some((p, _)) ==> p != proc_id)
            &&& m[proc_id as int] matches Some(q) && q.state == ProcessState::Running && q.module_id == module_id
            &&& forall|j: int| 0 <= j < proc_id ==> !is_ready(#[trigger] m[j])
        },
{
    if let Some(mid) = settled_table(ps, finished) {
        lemma_first_ready_some(mid, 0);
    }
}

} // verus!
