//! Thread priorities and the scheduling parameters each one stands for.

use vstd::prelude::*;

verus! {

/// How urgently a thread should run.
#[derive(Debug, Clone, Copy, PartialEq, Eq, Structural)]
pub enum ThreadPriority {
    Low,
    Normal,
    High,
    Realtime,
}

/// A scheduling policy of the operating system.
#[derive(Debug, Clone, Copy, PartialEq, Eq, Structural)]
pub enum SchedPolicy {
    /// The default time-sharing policy.
    Other,
    /// Real-time, round robin among threads of equal priority.
    RoundRobin,
    /// Real-time, first in first out.
    Fifo,
}

/// What a thread's priority is set to: its policy, its real-time priority
/// and its nice value.
#[derive(Debug, Clone, Copy, PartialEq, Eq, Structural)]
pub struct SchedParams {
    pub policy: SchedPolicy,
    pub sched_priority: i32,
    pub nice: i32,
}

/// The scheduling parameters of each priority: low and normal threads
/// time-share (nice 10 and 0); high threads run round robin at real-time
/// priority 10, nice -5; real-time threads run first in first out at
/// priority 15, nice -10.
pub open spec fn spec_priority_params(priority: ThreadPriority) -> SchedParams {
    match priority {
        ThreadPriority::Low => SchedParams { policy: SchedPolicy::Other, sched_priority: 0, nice: 10 },
        ThreadPriority::Normal => SchedParams { policy: SchedPolicy::Other, sched_priority: 0, nice: 0 },
        ThreadPriority::High => SchedParams {
            policy: SchedPolicy::RoundRobin,
            sched_priority: 10,
            nice: -5i32,
        },
        ThreadPriority::Realtime => SchedParams {
            policy: SchedPolicy::Fifo,
            sched_priority: 15,
            nice: -10i32,
        },
    }
}

pub fn priority_params(priority: ThreadPriority) -> (r: SchedParams)
    ensures
        r == spec_priority_params(priority),
{
    match priority {
        ThreadPriority::Low => SchedParams { policy: SchedPolicy::Other, sched_priority: 0, nice: 10 },
        ThreadPriority::Normal => SchedParams { policy: SchedPolicy::Other, sched_priority: 0, nice: 0 },
        ThreadPriority::High => SchedParams {
            policy: SchedPolicy::RoundRobin,
            sched_priority: 10,
            nice: -5,
        },
        ThreadPriority::Realtime => SchedParams {
            policy: SchedPolicy::Fifo,
            sched_priority: 15,
            nice: -10,
        },
    }
}

/// A higher priority never gets a larger nice value nor a smaller
/// real-time priority.
pub proof fn law_priority_order(a: ThreadPriority, b: ThreadPriority)
    requires
        priority_rank(a) <= priority_rank(b),
    ensures
        spec_priority_params(b).nice <= spec_priority_params(a).nice,
        spec_priority_params(a).sched_priority <= spec_priority_params(b).sched_priority,
{
}

/// The rank of a priority, from low to real-time.
pub open spec fn priority_rank(p: ThreadPriority) -> int {
    match p {
        ThreadPriority::Low => 0,
        ThreadPriority::Normal => 1,
        ThreadPriority::High => 2,
        ThreadPriority::Realtime => 3,
    }
}

/// Why a thread could not be managed.
#[derive(Debug, Clone, PartialEq, Eq)]
pub enum ThreadError {
    JoinError(String),
    SpawnError(String),
}

/// Whether byte `b` is ASCII white space.
pub open spec fn is_space(b: u8) -> bool {
    b == 32 || (9 <= b && b <= 13)
}

/// The fields of `s` finished so far and the field being read, reading
/// from the start.
pub open spec fn split_state(s: Seq<u8>) -> (Seq<Seq<u8>>, Seq<u8>)
    decreases s.len(),
{
    if s.len() == 0 {
        (Seq::empty(), Seq::empty())
    } else {
        let (done, cur) = split_state(s.drop_last());
        if is_space(s.last()) {
            if cur.len() > 0 {
                (done.push(cur), Seq::empty())
            } else {
                (done, cur)
            }
        } else {
            (done, cur.push(s.last()))
        }
    }
}

/// The white-space separated fields of `s`, in order.
pub open spec fn fields_of(s: Seq<u8>) -> Seq<Seq<u8>> {
    let (done, cur) = split_state(s);
    if cur.len() > 0 {
        done.push(cur)
    } else {
        done
    }
}

/// The fields holding the user and system times, in clock ticks, of a
/// thread's statistics line (`/proc/<pid>/task/<tid>/stat`): its 14th and
/// 15th fields. `None` when the line has fewer than 15 fields.
pub fn proc_stat_times(line: &[u8]) -> (r: Option<(Vec<u8>, Vec<u8>)>)
    ensures
        fields_of(line@).len() < 15 ==> r is None,
        fields_of(line@).len() >= 15 ==> (r matches Some((u, st)) && u@ == fields_of(line@)[13] && st@
            == fields_of(line@)[14]),
{
    let mut done: Vec<Vec<u8>> = Vec::new();
    let mut cur: Vec<u8> = Vec::new();
    let mut i: usize = 0;
    while i < line.len()
        invariant
            0 <= i <= line.len(),
            split_state(line@.take(i as int)) == (done@.map_values(|v: Vec<u8>| v@), cur@),
        decreases line.len() - i,
    {
        let b = line[i];
        proof {
            assert(line@.take(i + 1).drop_last() =~= line@.take(i as int));
            assert(line@.take(i + 1).last() == b);
        }
        if b == 32 || (9 <= b && b <= 13) {
            if cur.len() > 0 {
                let ghost before = done@;
                let field = cur;
                cur = Vec::new();
                done.push(field);
                proof {
                    assert(done@.map_values(|v: Vec<u8>| v@) =~= before.map_values(|v: Vec<u8>| v@).push(field@));
                    assert(cur@ =~= Seq::<u8>::empty());
                }
            }
        } else {
            cur.push(b);
        }
        i = i + 1;
    }
    proof {
        assert(line@.take(line@.len() as int) =~= line@);
    }
    if cur.len() > 0 {
        let ghost before = done@;
        done.push(cur);
        proof {
            assert(done@.map_values(|v: Vec<u8>| v@) =~= before.map_values(|v: Vec<u8>| v@).push(done@.last()@));
        }
    }
    proof {
        assert(fields_of(line@) == done@.map_values(|v: Vec<u8>| v@));
    }
    if done.len() < 15 {
        return None;
    }
    let utime = done[13].clone();
    let stime = done[14].clone();
    Some((utime, stime))
}

} // verus!
