//! Identity of a process over its life, so that a reused number is not taken for it.
use vstd::prelude::*;

use crate::model::{fault, ErrorCode, Fault, FaultView};
use crate::path::{route, same_path};
use crate::text::{after_last, chars_of, find_after_last, parse_number, parsed, split_words, texts, words};

verus! {

/// A process, by its number, the time of its start and its program.
#[derive(Debug)]
pub struct ProcessIdentity {
    pub pid: u32,
    pub start_time: u64,
    /// Path of the program, as bytes.
    pub executable: Vec<u8>,
}

/// A process identity by its values.
#[verifier::ext_equal]
pub struct IdentityView {
    pub pid: u32,
    pub start_time: u64,
    pub executable: Seq<u8>,
}

impl IdentityView {
    /// Whether two identities are of the same process. Programs are compared by where their
    /// paths lead.
    pub open spec fn fits(self, other: IdentityView) -> bool {
        &&& self.pid == other.pid
        &&& self.start_time == other.start_time
        &&& route(self.executable) == route(other.executable)
    }
}

impl View for ProcessIdentity {
    type V = IdentityView;

    open spec fn view(&self) -> IdentityView {
        IdentityView {
            pid: self.pid,
            start_time: self.start_time,
            executable: self.executable@,
        }
    }
}

impl Clone for ProcessIdentity {
    fn clone(&self) -> (r: Self)
        ensures
            r@ == self@,
    {
        let executable = self.executable.clone();
        assert(executable@ =~= self.executable@);
        ProcessIdentity { pid: self.pid, start_time: self.start_time, executable }
    }
}

/// Whether two runs of bytes are equal.
pub fn same_bytes(a: &Vec<u8>, b: &Vec<u8>) -> (r: bool)
    ensures
        r == (a@ == b@),
{
    if a.len() != b.len() {
        return false;
    }
    let mut i: usize = 0;
    while i < a.len()
        invariant
            i <= a@.len(),
            a@.len() == b@.len(),
            forall|j: int| 0 <= j < i ==> a@[j] == b@[j],
        decreases a@.len() - i,
    {
        if a[i] != b[i] {
            return false;
        }
        i = i + 1;
    }
    assert(a@ =~= b@);
    true
}

/// The fields that follow the name of the program in the state of a process. The name can
/// hold anything, so they begin behind the last bracket.
pub open spec fn stat_fields(stat: Seq<char>) -> Option<Seq<Seq<char>>> {
    match after_last(stat, ')') {
        Some(rest) => Some(words(rest)),
        None => None,
    }
}

/// A field as a number.
pub open spec fn stat_number(stat: Seq<char>, field: int, most: nat) -> Option<nat> {
    match stat_fields(stat) {
        Some(fields) => if 0 <= field < fields.len() {
            parsed(fields[field], most)
        } else {
            None
        },
        None => None,
    }
}

/// The time at which a process started, by its state.
pub open spec fn start_time_of(stat: Seq<char>) -> Option<nat> {
    stat_number(stat, 19, u64::MAX as nat)
}

/// The parent of a process, by its state.
pub open spec fn parent_of(stat: Seq<char>) -> Option<nat> {
    stat_number(stat, 1, u32::MAX as nat)
}

fn read_number(stat: &str, field: usize, most: u64) -> (r: Option<Option<u64>>)
    ensures
        match r {
            None => stat_fields(stat@) is None,
            Some(None) => stat_fields(stat@) is Some && stat_number(stat@, field as int, most as nat)
                is None,
            Some(Some(n)) => stat_number(stat@, field as int, most as nat) == Some(n as nat),
        },
{
    let all = chars_of(stat);
    match find_after_last(&all, ')') {
        None => None,
        Some(k) => {
            let fields = split_words(&all, k);
            assert(texts(fields@).len() == fields@.len());
            if field < fields.len() {
                assert(texts(fields@)[field as int] == fields@[field as int]@);
                Some(parse_number(fields[field].as_str(), most))
            } else {
                Some(None)
            }
        },
    }
}

/// Why a process cannot be identified, if it cannot, from its state and its program.
pub open spec fn unidentified(stat: Option<Seq<char>>, executable: bool) -> Option<FaultView> {
    match stat {
        None => Some(fault(ErrorCode::StaleTarget, "进程已经退出"@)),
        Some(text) => if stat_fields(text) is None {
            Some(fault(ErrorCode::StaleTarget, "进程状态无效"@))
        } else if start_time_of(text) is None {
            Some(fault(ErrorCode::StaleTarget, "进程生命周期无效"@))
        } else if !executable {
            Some(fault(ErrorCode::StaleTarget, "无法验证进程身份"@))
        } else {
            None
        },
    }
}

impl ProcessIdentity {
    /// Identifies a process from its state and the path of its program, as far as they
    /// could be read.
    pub fn identify(pid: u32, stat: Option<&str>, executable: Option<Vec<u8>>) -> (r: Result<
        Self,
        Fault,
    >)
        ensures
            match unidentified(
                match stat {
                    Some(s) => Some(s@),
                    None => None,
                },
                executable is Some,
            ) {
                Some(f) => r matches Err(e) && e@ == f,
                None => r matches Ok(p) && p.pid == pid && start_time_of(stat->0@) == Some(
                    p.start_time as nat,
                ) && p.executable@ == executable->0@,
            },
    {
        let text = match stat {
            Some(text) => text,
            None => {
                return Err(Fault::stale("进程已经退出"));
            },
        };
        let start_time: u64 = match read_number(text, 19, u64::MAX) {
            None => {
                return Err(Fault::stale("进程状态无效"));
            },
            Some(None) => {
                return Err(Fault::stale("进程生命周期无效"));
            },
            Some(Some(n)) => n,
        };
        match executable {
            None => Err(Fault::stale("无法验证进程身份")),
            Some(executable) => Ok(ProcessIdentity { pid, start_time, executable }),
        }
    }

    /// Whether two identities are of the same process.
    pub fn same_process(&self, other: &ProcessIdentity) -> (r: bool)
        ensures
            r == self@.fits(other@),
    {
        self.pid == other.pid && self.start_time == other.start_time && same_path(
            &self.executable,
            &other.executable,
        )
    }

    /// Whether two identities are equal to the letter.
    pub fn equals(&self, other: &ProcessIdentity) -> (r: bool)
        ensures
            r == (self@ == other@),
    {
        self.pid == other.pid && self.start_time == other.start_time && same_bytes(
            &self.executable,
            &other.executable,
        )
    }

    /// Whether the process still runs, given what its number identifies now.
    pub fn alive(&self, current: &Result<ProcessIdentity, Fault>) -> (r: bool)
        ensures
            r == (current matches Ok(now) && self@.fits(now@)),
    {
        match current {
            Ok(now) => self.same_process(now),
            Err(_) => false,
        }
    }
}

/// A number that was given to another process does not pass for the old one: its start
/// time differs.
pub proof fn reused_numbers_are_noticed(a: IdentityView, b: IdentityView)
    requires
        a.pid == b.pid,
        a.start_time != b.start_time,
    ensures
        !a.fits(b),
{
}

/// Most generations between a process and an ancestor.
pub const MAX_GENERATIONS: u32 = 64;

/// A search for an ancestor of a process.
#[derive(Debug, Clone, Copy, PartialEq, Eq, Structural)]
pub struct Ascent {
    pub pid: u32,
    pub ancestor: u32,
    pub left: u32,
}

/// What a search does next.
#[derive(Debug, Clone, Copy, PartialEq, Eq, Structural)]
pub enum AscentStep {
    /// The answer is known.
    Answer(bool),
    /// The state of this process is needed.
    Read(u32),
}

/// Whether a process descends from another within some generations, given the state of
/// each process.
pub open spec fn descends(
    states: spec_fn(u32) -> Option<Seq<char>>,
    pid: u32,
    ancestor: u32,
    left: nat,
) -> bool
    decreases left,
{
    if left == 0 {
        false
    } else if pid == ancestor {
        true
    } else {
        match up(states(pid), pid) {
            Some(next) => descends(states, next, ancestor, (left - 1) as nat),
            None => false,
        }
    }
}

/// The parent to go on with, by the state of a process. The first process, the kernel and
/// a process that names itself end the search.
pub open spec fn up(stat: Option<Seq<char>>, pid: u32) -> Option<u32> {
    match stat {
        Some(text) => match parent_of(text) {
            Some(next) => if next == pid || next < 2 {
                None
            } else {
                Some(next as u32)
            },
            None => None,
        },
        None => None,
    }
}

impl Ascent {
    /// Begins to search for an ancestor of a process.
    pub fn new(pid: u32, ancestor: u32) -> (r: Self)
        ensures
            r == (Ascent { pid, ancestor, left: MAX_GENERATIONS }),
    {
        Ascent { pid, ancestor, left: MAX_GENERATIONS }
    }

    /// What to do next.
    pub fn step(&self) -> (r: AscentStep)
        ensures
            r == (if self.left == 0 {
                AscentStep::Answer(false)
            } else if self.pid == self.ancestor {
                AscentStep::Answer(true)
            } else {
                AscentStep::Read(self.pid)
            }),
    {
        if self.left == 0 {
            AscentStep::Answer(false)
        } else if self.pid == self.ancestor {
            AscentStep::Answer(true)
        } else {
            AscentStep::Read(self.pid)
        }
    }

    /// Goes on with the state that was read, if any. False if the search ends without the
    /// ancestor.
    pub fn climb(&mut self, stat: Option<&str>) -> (r: bool)
        requires
            old(self).left > 0,
        ensures
            match up(
                match stat {
                    Some(s) => Some(s@),
                    None => None,
                },
                old(self).pid,
            ) {
                Some(next) => r && *final(self) == (Ascent {
                    pid: next,
                    left: (old(self).left - 1) as u32,
                    ..*old(self)
                }),
                None => !r && *final(self) == *old(self),
            },
    {
        let text = match stat {
            Some(text) => text,
            None => {
                return false;
            },
        };
        match read_number(text, 1, u32::MAX as u64) {
            Some(Some(n)) => {
                let next: u32 = n as u32;
                if next == self.pid || next < 2 {
                    return false;
                }
                self.pid = next;
                self.left = self.left - 1;
                true
            },
            _ => false,
        }
    }
}

/// Each step of a search keeps its answer, so that the answer in the end is whether the
/// process descends from the ancestor.
pub proof fn searching_keeps_the_answer(states: spec_fn(u32) -> Option<Seq<char>>, a: Ascent)
    requires
        a.left > 0,
        a.pid != a.ancestor,
    ensures
        match up(states(a.pid), a.pid) {
            Some(next) => descends(states, a.pid, a.ancestor, a.left as nat) == descends(
                states,
                next,
                a.ancestor,
                (a.left - 1) as nat,
            ),
            None => !descends(states, a.pid, a.ancestor, a.left as nat),
        },
{
}

} // verus!
