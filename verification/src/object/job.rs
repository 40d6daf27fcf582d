//! Job objects: containers for processes and child jobs, forming a tree,
//! with a policy, resource limits and usage statistics.

use vstd::prelude::*;
use crate::object::ids::{IdAllocator, nth_id};
use crate::object::handle::{KernelObjectBase, ObjectType, count_after_inc, count_after_dec};

verus! {

/// Job identifier.
pub type JobId = u64;

/// Invalid job id.
pub const JOB_ID_INVALID: u64 = 0;

/// Root job id.
pub const JOB_ID_ROOT: u64 = 1;

/// First id handed to a child job.
pub const JOB_ID_FIRST_CHILD: u64 = 2;

/// Job policy flags.
#[derive(Debug, Clone, Copy, PartialEq, Eq, Structural)]
pub struct JobPolicy(pub u32);

#[allow(non_upper_case_globals)]
impl JobPolicy {
    /// No special policy
    pub const Empty: u32 = 0;
    /// Basic policy (minimal restrictions)
    pub const Basic: u32 = 1;
    /// No new VMOs
    pub const NoNewVmos: u32 = 2;
    /// No new channels
    pub const NoNewChannels: u32 = 4;
    /// No new events
    pub const NoNewEvents: u32 = 8;
    /// No new sockets
    pub const NoNewSockets: u32 = 16;
    /// No new processes
    pub const NoNewProcesses: u32 = 32;
    /// No new threads
    pub const NoNewThreads: u32 = 64;
    /// Kill all processes when the job is closed
    pub const KillOnClose: u32 = 128;
    /// Allow profiling
    pub const AllowProfile: u32 = 256;
    /// Allow debugging
    pub const AllowDebug: u32 = 512;

    /// Policy from a raw creation value: 1 selects `Basic`, anything else
    /// gives the empty policy.
    pub fn from_raw(raw: u32) -> (r: JobPolicy)
        ensures
            r.0 == (if raw == 1 { 1u32 } else { 0u32 }),
    {
        if raw == 1 {
            JobPolicy(Self::Basic)
        } else {
            JobPolicy(Self::Empty)
        }
    }

    /// The raw flags.
    pub fn to_flags(self) -> (r: u32)
        ensures
            r == self.0,
    {
        self.0
    }

    /// Whether this policy shares a flag with `other`.
    pub fn contains(self, other: JobPolicy) -> (r: bool)
        ensures
            r == (self.0 & other.0 != 0),
    {
        (self.0 & other.0) != 0
    }
}

impl core::ops::BitOr for JobPolicy {
    type Output = JobPolicy;

    fn bitor(self, rhs: JobPolicy) -> (r: JobPolicy) {
        JobPolicy(self.0 | rhs.0)
    }
}

impl vstd::std_specs::ops::BitOrSpecImpl for JobPolicy {
    open spec fn obeys_bitor_spec() -> bool {
        true
    }

    open spec fn bitor_req(self, rhs: JobPolicy) -> bool {
        true
    }

    open spec fn bitor_spec(self, rhs: JobPolicy) -> JobPolicy {
        JobPolicy(self.0 | rhs.0)
    }
}

/// Law: a combined policy contains each of its non-empty parts.
pub proof fn lemma_policy_union_contains(a: JobPolicy, b: JobPolicy)
    ensures
        a.0 != 0 ==> (a.0 | b.0) & a.0 != 0,
        b.0 != 0 ==> (a.0 | b.0) & b.0 != 0,
{
    let x = a.0;
    let y = b.0;
    assert(x != 0 ==> (x | y) & x != 0) by (bit_vector);
    assert(y != 0 ==> (x | y) & y != 0) by (bit_vector);
}

/// Resource limits of a job (0 means no limit).
#[derive(Debug, Clone, Copy, PartialEq, Eq, Structural)]
pub struct ResourceLimits {
    pub max_memory: u64,
    pub max_cpu_time: u64,
    pub max_processes: u64,
    pub max_threads: u64,
    pub max_jobs: u64,
}

impl ResourceLimits {
    /// No limits at all.
    pub fn unlimited() -> (r: ResourceLimits)
        ensures
            r == (ResourceLimits {
                max_memory: 0,
                max_cpu_time: 0,
                max_processes: 0,
                max_threads: 0,
                max_jobs: 0,
            }),
    {
        ResourceLimits { max_memory: 0, max_cpu_time: 0, max_processes: 0, max_threads: 0, max_jobs: 0 }
    }

    /// Whether memory is limited.
    pub fn has_memory_limit(self) -> (r: bool)
        ensures
            r == (self.max_memory > 0),
    {
        self.max_memory > 0
    }

    /// Whether CPU time is limited.
    pub fn has_cpu_time_limit(self) -> (r: bool)
        ensures
            r == (self.max_cpu_time > 0),
    {
        self.max_cpu_time > 0
    }
}

/// Limits with every field 0 (nothing limited).
pub open spec fn no_limits() -> ResourceLimits {
    ResourceLimits { max_memory: 0, max_cpu_time: 0, max_processes: 0, max_threads: 0, max_jobs: 0 }
}

/// Statistics with every field 0.
pub open spec fn zero_stats() -> JobStats {
    JobStats { memory_usage: 0, cpu_time: 0, process_count: 0, thread_count: 0, job_count: 0 }
}

/// Resource usage statistics of a job.
#[derive(Debug, Clone, Copy, PartialEq, Eq, Structural)]
pub struct JobStats {
    pub memory_usage: u64,
    pub cpu_time: u64,
    pub process_count: u64,
    pub thread_count: u64,
    pub job_count: u64,
}

impl JobStats {
    /// All-zero statistics.
    pub fn zero() -> (r: JobStats)
        ensures
            r == (JobStats {
                memory_usage: 0,
                cpu_time: 0,
                process_count: 0,
                thread_count: 0,
                job_count: 0,
            }),
    {
        JobStats { memory_usage: 0, cpu_time: 0, process_count: 0, thread_count: 0, job_count: 0 }
    }
}

/// The result of removing the first occurrence of `x` from `s` (or `s`
/// itself when `x` does not occur).
pub open spec fn removed_first(s: Seq<u64>, x: u64, r: Seq<u64>) -> bool {
    if exists|i: int| 0 <= i < s.len() && s[i] == x {
        exists|p: int|
            0 <= p < s.len() && s[p] == x && (forall|j: int| 0 <= j < p ==> s[j] != x) && r
                == s.remove(p)
    } else {
        r == s
    }
}

/// Remove the first occurrence of `x` from `v`; true when one was found.
fn remove_first(v: &mut Vec<u64>, x: u64) -> (found: bool)
    ensures
        removed_first(old(v)@, x, final(v)@),
        found == (exists|i: int| 0 <= i < old(v)@.len() && old(v)@[i] == x),
{
    let mut i: usize = 0;
    while i < v.len()
        invariant
            i <= v@.len(),
            v@ == old(v)@,
            forall|j: int| 0 <= j < i ==> v@[j] != x,
        decreases v@.len() - i,
    {
        if v[i] == x {
            v.remove(i);
            proof {
                assert(old(v)@[i as int] == x);
            }
            return true;
        }
        i = i + 1;
    }
    false
}

/// A job: a node in the job tree.
pub struct Job {
    pub base: KernelObjectBase,
    pub id: JobId,
    pub parent_id: Option<JobId>,
    pub children: Vec<JobId>,
    pub processes: Vec<u64>,
    pub policy: JobPolicy,
    pub limits: ResourceLimits,
    pub stats: JobStats,
}

impl Job {
    /// The process count in the statistics matches the process list.
    pub open spec fn wf(&self) -> bool {
        self.stats.process_count == self.processes@.len()
    }

    /// Create the root job.
    pub fn new_root() -> (j: Job)
        ensures
            j.wf(),
            j.id == JOB_ID_ROOT,
            j.parent_id is None,
            j.children@.len() == 0,
            j.processes@.len() == 0,
            j.policy.0 == JobPolicy::Basic,
            j.limits == no_limits(),
            j.stats == zero_stats(),
            j.base.obj_type == ObjectType::Job && j.base.ref_count == 1,
    {
        Job {
            base: KernelObjectBase::new(ObjectType::Job),
            id: JOB_ID_ROOT,
            parent_id: None,
            children: Vec::new(),
            processes: Vec::new(),
            policy: JobPolicy(JobPolicy::Basic),
            limits: ResourceLimits::unlimited(),
            stats: JobStats::zero(),
        }
    }

    /// Create a child job of `parent` with a fresh id and record it among
    /// the parent's children.
    pub fn new_child(parent: &mut Job, policy: u32, ids: &mut IdAllocator) -> (r: Result<
        Job,
        &'static str,
    >)
        ensures
            r matches Ok(j) && {
                &&& j.wf()
                &&& j.id == old(ids).next
                &&& j.parent_id == Some(old(parent).id)
                &&& j.children@.len() == 0 && j.processes@.len() == 0
                &&& j.policy == JobPolicy::from_raw_spec(policy)
                &&& j.limits == no_limits()
                &&& j.stats == zero_stats()
                &&& final(parent).children@ == old(parent).children@.push(j.id)
            },
            final(ids).next == nth_id(old(ids).next, 1),
            final(parent).id == old(parent).id,
            final(parent).parent_id == old(parent).parent_id,
            final(parent).processes@ == old(parent).processes@,
            final(parent).stats == old(parent).stats,
            final(parent).policy == old(parent).policy,
            final(parent).limits == old(parent).limits,
    {
        let child = Job {
            base: KernelObjectBase::new(ObjectType::Job),
            id: ids.next_id(),
            parent_id: Some(parent.id),
            children: Vec::new(),
            processes: Vec::new(),
            policy: JobPolicy::from_raw(policy),
            limits: ResourceLimits::unlimited(),
            stats: JobStats::zero(),
        };
        parent.children.push(child.id);
        Ok(child)
    }

    /// Get the job id.
    pub fn id(&self) -> (r: JobId)
        ensures
            r == self.id,
    {
        self.id
    }

    /// Get the parent job id.
    pub fn parent_id(&self) -> (r: Option<JobId>)
        ensures
            r == self.parent_id,
    {
        self.parent_id
    }

    /// Get the policy.
    pub fn policy(&self) -> (r: JobPolicy)
        ensures
            r == self.policy,
    {
        self.policy
    }

    /// Set the policy.
    pub fn set_policy(&mut self, policy: JobPolicy)
        ensures
            final(self).policy == policy,
            final(self).stats == old(self).stats,
            final(self).processes@ == old(self).processes@,
            final(self).children@ == old(self).children@,
            final(self).limits == old(self).limits,
            final(self).id == old(self).id,
    {
        self.policy = policy;
    }

    /// Get the resource limits.
    pub fn limits(&self) -> (r: ResourceLimits)
        ensures
            r == self.limits,
    {
        self.limits
    }

    /// Set the resource limits.
    pub fn set_limits(&mut self, limits: ResourceLimits)
        ensures
            final(self).limits == limits,
            final(self).stats == old(self).stats,
            final(self).processes@ == old(self).processes@,
            final(self).children@ == old(self).children@,
            final(self).policy == old(self).policy,
            final(self).id == old(self).id,
    {
        self.limits = limits;
    }

    /// Get the statistics.
    pub fn stats(&self) -> (r: JobStats)
        ensures
            r == self.stats,
    {
        self.stats
    }

    /// Record a child job.
    pub fn add_child(&mut self, child_id: JobId)
        ensures
            final(self).children@ == old(self).children@.push(child_id),
            final(self).processes@ == old(self).processes@,
            final(self).stats == old(self).stats,
            final(self).id == old(self).id,
    {
        self.children.push(child_id);
    }

    /// Forget a child job (its first occurrence).
    pub fn remove_child(&mut self, child_id: JobId)
        ensures
            removed_first(old(self).children@, child_id, final(self).children@),
            final(self).processes@ == old(self).processes@,
            final(self).stats == old(self).stats,
            final(self).id == old(self).id,
    {
        let _ = remove_first(&mut self.children, child_id);
    }

    /// Record a process in this job.
    pub fn add_process(&mut self, process_id: u64)
        requires
            old(self).wf(),
            old(self).processes@.len() < u64::MAX,
        ensures
            final(self).wf(),
            final(self).processes@ == old(self).processes@.push(process_id),
            final(self).stats.process_count == old(self).stats.process_count + 1,
            final(self).children@ == old(self).children@,
            final(self).id == old(self).id,
    {
        self.processes.push(process_id);
        self.stats.process_count = self.stats.process_count + 1;
    }

    /// Forget a process (its first occurrence) and lower the process count.
    pub fn remove_process(&mut self, process_id: u64)
        requires
            old(self).wf(),
        ensures
            final(self).wf(),
            removed_first(old(self).processes@, process_id, final(self).processes@),
            final(self).children@ == old(self).children@,
            final(self).id == old(self).id,
    {
        let found = remove_first(&mut self.processes, process_id);
        if found {
            self.stats.process_count = self.stats.process_count - 1;
        }
    }

    /// Number of child jobs.
    pub fn child_count(&self) -> (r: usize)
        ensures
            r == self.children@.len(),
    {
        self.children.len()
    }

    /// Number of processes.
    pub fn process_count(&self) -> (r: usize)
        ensures
            r == self.processes@.len(),
    {
        self.processes.len()
    }

    /// The kernel object base.
    pub fn base(&self) -> (r: &KernelObjectBase)
        ensures
            *r == self.base,
    {
        &self.base
    }

    /// Reference count.
    pub fn ref_count(&self) -> (r: usize)
        ensures
            r == self.base.ref_count,
    {
        self.base.ref_count()
    }

    /// Increment the reference count.
    pub fn ref_inc(&mut self)
        ensures
            final(self).base.ref_count == count_after_inc(old(self).base.ref_count),
            final(self).id == old(self).id,
    {
        self.base.ref_inc();
    }

    /// Decrement the reference count; true when this was the last reference.
    pub fn ref_dec(&mut self) -> (last: bool)
        ensures
            last == (old(self).base.ref_count == 1),
            final(self).base.ref_count == count_after_dec(old(self).base.ref_count),
            final(self).id == old(self).id,
    {
        self.base.ref_dec()
    }
}

impl JobPolicy {
    /// The policy `from_raw` gives.
    pub open spec fn from_raw_spec(raw: u32) -> JobPolicy {
        JobPolicy(if raw == 1 { 1u32 } else { 0u32 })
    }
}

/// Law: adding a process and then removing it restores the process list
/// and the statistics.
pub proof fn lemma_add_remove_process(s: Seq<u64>, p: u64)
    requires
        forall|i: int| 0 <= i < s.len() ==> s[i] != p,
    ensures
        removed_first(s.push(p), p, s),
{
    let t = s.push(p);
    assert(t[s.len() as int] == p);
    assert(t.remove(s.len() as int) =~= s);
}

} // verus!
