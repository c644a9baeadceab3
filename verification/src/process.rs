use vstd::prelude::*;
use crate::text::{int_text, decimal, i32_text, text_of, u64_text, all_digits, digits_value, lemma_decimal};
use crate::clock::{two_digits, hours_minutes_seconds, push_two_digits, format_hms, lemma_two_digits_small};
use crate::order::HasPid;

verus! {

/// One process as the monitor records it.
pub struct Process {
    pub pid: i32,
    pub name: String,
    /// CPU usage in hundredths of a percent (`1234` is `12.34%`).
    pub cpu: u64,
    /// Resident memory in kilobytes.
    pub mem: u64,
    /// Start time, in seconds.
    pub start_time: u64,
    pub elapsed_time: u64,
    pub parent: Option<i32>,
}

impl HasPid for Process {
    open spec fn pid_key(&self) -> i32 {
        self.pid
    }

    fn get_pid(&self) -> (p: i32) {
        self.pid
    }
}

impl Clone for Process {
    fn clone(&self) -> (r: Self)
        ensures
            r == *self,
    {
        Process {
            pid: self.pid,
            name: self.name.clone(),
            cpu: self.cpu,
            mem: self.mem,
            start_time: self.start_time,
            elapsed_time: self.elapsed_time,
            parent: self.parent,
        }
    }
}

/// The text of a parent pid: its decimal form, or `N/A` without a parent.
pub open spec fn parent_text(parent: Option<i32>) -> Seq<char> {
    match parent {
        Some(p) => int_text(p as int),
        None => "N/A"@,
    }
}

/// A CPU usage in hundredths of a percent, with two decimals and a percent
/// sign (`format!("{:.2}%", usage)`).
pub open spec fn cpu_text(hundredths: nat) -> Seq<char> {
    decimal(hundredths / 100) + seq!['.'] + two_digits(hundredths % 100) + seq!['%']
}

/// The row of the short process table: pid, name, start time, parent.
pub open spec fn short_row(p: Process) -> Seq<Seq<char>> {
    seq![int_text(p.pid as int), p.name@, hours_minutes_seconds(p.start_time as nat), parent_text(p.parent)]
}

/// The row of the full process table: pid, name, CPU, memory, start time,
/// parent.
pub open spec fn full_row(p: Process, memory: Seq<char>) -> Seq<Seq<char>> {
    seq![
        int_text(p.pid as int),
        p.name@,
        cpu_text(p.cpu as nat),
        memory,
        hours_minutes_seconds(p.start_time as nat),
        parent_text(p.parent),
    ]
}

/// The text of each string of `v`.
pub open spec fn texts(v: Seq<String>) -> Seq<Seq<char>> {
    v.map_values(|s: String| s@)
}

/// The text of a parent pid.
pub fn parent_string(parent: Option<i32>) -> (s: String)
    ensures
        s@ == parent_text(parent),
{
    match parent {
        Some(p) => i32_text(p),
        None => text_of("N/A"),
    }
}

/// The text of a CPU usage given in hundredths of a percent.
pub fn cpu_string(hundredths: u64) -> (s: String)
    ensures
        s@ == cpu_text(hundredths as nat),
{
    let mut s = u64_text(hundredths / 100);
    s.push('.');
    push_two_digits(&mut s, hundredths % 100);
    s.push('%');
    s
}

impl Process {
    /// A process record from the values the operating system reports; the
    /// elapsed time starts at zero.
    pub fn new(pid: i32, name: String, cpu: u64, mem: u64, start_time: u64, parent: Option<i32>) -> (p: Process)
        ensures
            p == (Process { pid, name, cpu, mem, start_time, elapsed_time: 0, parent }),
    {
        Process { pid, name, cpu, mem, start_time, elapsed_time: 0, parent }
    }

    /// The start time as `HH:MM:SS`.
    fn format_time(seconds: u64) -> (s: String)
        ensures
            s@ == hours_minutes_seconds(seconds as nat),
    {
        format_hms(seconds)
    }

    /// The cells of the short process table: pid, name, start time
    /// (`HH:MM:SS`) and parent pid (`N/A` without a parent).
    pub fn pstableformat(&self) -> (row: Vec<String>)
        ensures
            texts(row@) == short_row(*self),
    {
        let parent = parent_string(self.parent);
        let mut row: Vec<String> = Vec::new();
        row.push(i32_text(self.pid));
        row.push(self.name.clone());
        row.push(Process::format_time(self.start_time));
        row.push(parent);
        assert(texts(row@) =~= short_row(*self));
        row
    }

    /// The cells of the full process table: pid, name, CPU usage with two
    /// decimals and a percent sign, the memory as `memory` renders it, the
    /// start time (`HH:MM:SS`) and the parent pid (`N/A` without a parent).
    pub fn format(&self, memory: &str) -> (row: Vec<String>)
        ensures
            texts(row@) == full_row(*self, memory@),
    {
        let parent = parent_string(self.parent);
        let mut row: Vec<String> = Vec::new();
        row.push(i32_text(self.pid));
        row.push(self.name.clone());
        row.push(cpu_string(self.cpu));
        row.push(text_of(memory));
        row.push(Process::format_time(self.start_time));
        row.push(parent);
        assert(texts(row@) =~= full_row(*self, memory@));
        row
    }
}


/// The short table shows, for every process, exactly the pid, name, start
/// time and parent cells of the full table, in the same order.
pub proof fn law_short_row_within_full_row(p: Process, memory: Seq<char>)
    ensures
        short_row(p) == seq![full_row(p, memory)[0], full_row(p, memory)[1], full_row(p, memory)[4], full_row(p, memory)[5]],
{
    assert(short_row(p) =~= seq![full_row(p, memory)[0], full_row(p, memory)[1], full_row(p, memory)[4], full_row(p, memory)[5]]);
}

/// The CPU cell reads back to the usage, for every usage (there is no cap at
/// 100%): it is a run of digits, a `.`, two digits and `%`, and the number
/// it shows, in hundredths, is `hundredths`.
pub proof fn law_cpu_text_reads_back(hundredths: nat)
    ensures
        cpu_text(hundredths).len() >= 5,
        cpu_text(hundredths).last() == '%',
        cpu_text(hundredths)[cpu_text(hundredths).len() - 4] == '.',
        all_digits(cpu_text(hundredths).subrange(0, cpu_text(hundredths).len() - 4)),
        all_digits(cpu_text(hundredths).subrange(cpu_text(hundredths).len() - 3, cpu_text(hundredths).len() - 1)),
        digits_value(cpu_text(hundredths).subrange(0, cpu_text(hundredths).len() - 4)) * 100
            + digits_value(cpu_text(hundredths).subrange(cpu_text(hundredths).len() - 3, cpu_text(hundredths).len() - 1))
            == hundredths,
{
    let c = cpu_text(hundredths);
    let whole = decimal(hundredths / 100);
    let frac = two_digits(hundredths % 100);
    lemma_decimal(hundredths / 100);
    lemma_two_digits_small(hundredths % 100);
    assert(c.len() == whole.len() + 4);
    assert(c.subrange(0, c.len() - 4) =~= whole);
    assert(c.subrange(c.len() - 3, c.len() - 1) =~= frac);
    assert(c[c.len() - 4] == '.');
}
} // verus!
