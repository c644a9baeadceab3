use vstd::prelude::*;
use crate::text::{
    int_text, pad_left_spec, pad_right_spec, words, split_whitespace, push_text, push_padded_left,
    push_padded_right, i32_text,
};
use crate::clock::{minutes_seconds, format_time};
use crate::process::{Process, texts};
use crate::order::{pid_leq, sort_pids, HasPid, lookup, pids, find_pid, pid_list, lemma_rearranged_pids_found};

verus! {

/// One process as the process tables print it; the memory, CPU usage and
/// status are already rendered as text.
pub struct TableEntry {
    pub pid: i32,
    pub name: String,
    pub memory: String,
    pub cpu: String,
    pub status: String,
    /// Start time of the process, in seconds since the monitor's clock origin.
    pub start_time: u64,
}

impl HasPid for TableEntry {
    open spec fn pid_key(&self) -> i32 {
        self.pid
    }

    fn get_pid(&self) -> (p: i32) {
        self.pid
    }
}

impl Clone for TableEntry {
    fn clone(&self) -> (r: Self)
        ensures
            r == *self,
    {
        TableEntry {
            pid: self.pid,
            name: self.name.clone(),
            memory: self.memory.clone(),
            cpu: self.cpu.clone(),
            status: self.status.clone(),
            start_time: self.start_time,
        }
    }
}

/// One row of a process table: the pid, one word of the name, memory, CPU
/// usage (right-aligned in `cpu_width` columns and followed by `%`), running
/// time and status. The status text is written as it is: its display
/// ignores the column width.
pub open spec fn table_row(
    pid: i32,
    word: Seq<char>,
    memory: Seq<char>,
    cpu: Seq<char>,
    duration: Seq<char>,
    status: Seq<char>,
    cpu_width: nat,
) -> Seq<char> {
    " "@ + pad_right_spec(int_text(pid as int), 8) + "  "@ + pad_right_spec(word, 100) + "  "@
        + pad_left_spec(memory, 10, ' ') + "  "@ + pad_left_spec(cpu, cpu_width, ' ') + "%  "@
        + pad_left_spec(duration, 20, ' ') + "  "@ + status + " "@
}

/// How long a process has run, as `MM:SS`: the time since the monitor's
/// clock origin `system_start`, plus the process's start time.
pub open spec fn running_time(e: TableEntry, now: u64, system_start: u64) -> Seq<char> {
    minutes_seconds((now - system_start + e.start_time) as nat)
}

/// The rows of one process: one per word of its name (none for an empty
/// name).
pub open spec fn entry_rows(e: TableEntry, now: u64, system_start: u64, cpu_width: nat) -> Seq<Seq<char>> {
    words(e.name@).map_values(
        |w: Seq<char>| table_row(e.pid, w, e.memory@, e.cpu@, running_time(e, now, system_start), e.status@, cpu_width),
    )
}

/// The rows of the processes of `es`, in that order.
pub open spec fn rows_of(es: Seq<TableEntry>, now: u64, system_start: u64, cpu_width: nat) -> Seq<Seq<char>>
    decreases es.len(),
{
    if es.len() == 0 {
        Seq::empty()
    } else {
        rows_of(es.drop_last(), now, system_start, cpu_width) + entry_rows(es.last(), now, system_start, cpu_width)
    }
}

/// Whether every running time of `es` can be computed without overflow.
pub open spec fn times_fit(es: Seq<TableEntry>, now: u64, system_start: u64) -> bool {
    &&& system_start <= now
    &&& forall|i: int| 0 <= i < es.len() ==> now - system_start + (#[trigger] es[i]).start_time <= u64::MAX
}

/// The entries named by the pids of `order` (one entry per pid).
pub open spec fn entries_in(es: Seq<TableEntry>, order: Seq<i32>) -> Seq<TableEntry> {
    order.map_values(|p: i32| lookup(es, p).unwrap())
}

/// The heading of the sorted process tables.
pub open spec fn sorted_heading() -> Seq<char> {
    "| "@ + pad_right_spec("PID"@, 8) + " | "@ + pad_right_spec("Name"@, 100) + " | "@
        + pad_right_spec("Memory"@, 10) + " | "@ + pad_right_spec("cpu"@, 20) + " | "@
        + pad_right_spec("process_duration"@, 20) + " |"@ + pad_right_spec("status"@, 70)
}

/// The heading of the unsorted process table.
pub open spec fn plain_heading() -> Seq<char> {
    "| "@ + pad_right_spec("PID"@, 8) + " | "@ + pad_right_spec("Name"@, 95) + " | "@
        + pad_right_spec("Memory"@, 10) + " | "@ + pad_right_spec("cpu"@, 10) + "  | "@
        + pad_right_spec("process_duration"@, 20) + " | "@ + pad_right_spec("status"@, 70)
}

fn sorted_header() -> (s: String)
    ensures
        s@ == sorted_heading(),
{
    let mut s = String::new();
    push_text(&mut s, "| ");
    push_padded_right(&mut s, "PID", 8);
    push_text(&mut s, " | ");
    push_padded_right(&mut s, "Name", 100);
    push_text(&mut s, " | ");
    push_padded_right(&mut s, "Memory", 10);
    push_text(&mut s, " | ");
    push_padded_right(&mut s, "cpu", 20);
    push_text(&mut s, " | ");
    push_padded_right(&mut s, "process_duration", 20);
    push_text(&mut s, " |");
    push_padded_right(&mut s, "status", 70);
    s
}

fn plain_header() -> (s: String)
    ensures
        s@ == plain_heading(),
{
    let mut s = String::new();
    push_text(&mut s, "| ");
    push_padded_right(&mut s, "PID", 8);
    push_text(&mut s, " | ");
    push_padded_right(&mut s, "Name", 95);
    push_text(&mut s, " | ");
    push_padded_right(&mut s, "Memory", 10);
    push_text(&mut s, " | ");
    push_padded_right(&mut s, "cpu", 10);
    push_text(&mut s, "  | ");
    push_padded_right(&mut s, "process_duration", 20);
    push_text(&mut s, " | ");
    push_padded_right(&mut s, "status", 70);
    s
}

/// Appends the rows of one process to `out`.
fn push_entry_rows(out: &mut Vec<String>, e: &TableEntry, now: u64, system_start: u64, cpu_width: usize)
    requires
        system_start <= now,
        now - system_start + e.start_time <= u64::MAX,
    ensures
        texts(final(out)@) == texts(old(out)@) + entry_rows(*e, now, system_start, cpu_width as nat),
{
    let duration = format_time(now - system_start + e.start_time);
    let parts = split_whitespace(e.name.as_str());
    let ghost spec_rows = entry_rows(*e, now, system_start, cpu_width as nat);
    let ghost start = texts(out@);
    let mut k: usize = 0;
    while k < parts.len()
        invariant
            k <= parts.len(),
            parts@.len() == words(e.name@).len(),
            forall|j: int| 0 <= j < parts@.len() ==> #[trigger] parts@[j]@ == words(e.name@)[j],
            spec_rows == entry_rows(*e, now, system_start, cpu_width as nat),
            duration@ == running_time(*e, now, system_start),
            texts(out@) == start + spec_rows.take(k as int),
        decreases parts.len() - k,
    {
        let mut row = String::new();
        push_text(&mut row, " ");
        let pid_text = i32_text(e.pid);
        push_padded_right(&mut row, pid_text.as_str(), 8);
        push_text(&mut row, "  ");
        push_padded_right(&mut row, parts[k].as_str(), 100);
        push_text(&mut row, "  ");
        push_padded_left(&mut row, e.memory.as_str(), 10, ' ');
        push_text(&mut row, "  ");
        push_padded_left(&mut row, e.cpu.as_str(), cpu_width, ' ');
        push_text(&mut row, "%  ");
        push_padded_left(&mut row, duration.as_str(), 20, ' ');
        push_text(&mut row, "  ");
        push_text(&mut row, e.status.as_str());
        push_text(&mut row, " ");
        let ghost before = out@;
        out.push(row);
        proof {
            assert(row@ == spec_rows[k as int]);
            assert(spec_rows.take(k + 1) =~= spec_rows.take(k as int).push(spec_rows[k as int]));
            assert(texts(out@) =~= texts(before).push(row@));
        }
        k += 1;
    }
    assert(spec_rows.take(k as int) =~= spec_rows);
}

/// Appends the rows of `es[from..to]`, in order.
fn push_rows(out: &mut Vec<String>, es: &Vec<TableEntry>, now: u64, system_start: u64, cpu_width: usize)
    requires
        times_fit(es@, now, system_start),
    ensures
        texts(final(out)@) == texts(old(out)@) + rows_of(es@, now, system_start, cpu_width as nat),
{
    let ghost start = texts(out@);
    let mut i: usize = 0;
    assert(es@.take(0) =~= Seq::<TableEntry>::empty());
    assert(start + rows_of(Seq::<TableEntry>::empty(), now, system_start, cpu_width as nat) =~= start);
    while i < es.len()
        invariant
            i <= es@.len(),
            times_fit(es@, now, system_start),
            texts(out@) == start + rows_of(es@.take(i as int), now, system_start, cpu_width as nat),
        decreases es.len() - i,
    {
        let ghost mid = texts(out@);
        push_entry_rows(out, &es[i], now, system_start, cpu_width);
        assert(es@.take(i + 1).drop_last() =~= es@.take(i as int));
        assert(es@.take(i + 1).last() == es@[i as int]);
        assert(texts(out@) =~= start + rows_of(es@.take(i + 1), now, system_start, cpu_width as nat));
        i += 1;
    }
    assert(es@.take(i as int) =~= es@);
}

/// The entries of `es` in the order of the pids of `order`, each pid naming
/// an entry of `es`.
fn reorder(es: &Vec<TableEntry>, order: &Vec<i32>) -> (r: Vec<TableEntry>)
    requires
        forall|k: int| 0 <= k < order@.len() ==> lookup(es@, #[trigger] order@[k]) is Some,
    ensures
        r@ == entries_in(es@, order@),
        forall|k: int| 0 <= k < r@.len() ==> es@.contains(#[trigger] r@[k]),
{
    let mut r: Vec<TableEntry> = Vec::new();
    let mut k: usize = 0;
    while k < order.len()
        invariant
            k <= order@.len(),
            forall|q: int| 0 <= q < order@.len() ==> lookup(es@, #[trigger] order@[q]) is Some,
            r@ == entries_in(es@, order@).take(k as int),
            forall|q: int| 0 <= q < r@.len() ==> es@.contains(#[trigger] r@[q]),
        decreases order.len() - k,
    {
        let pid = order[k];
        assert(lookup(es@, order@[k as int]) is Some);
        match find_pid(es, pid) {
            None => {
                assert(false);
            },
            Some(i) => {
                let e = es[i].clone();
                r.push(e);
                assert(entries_in(es@, order@).take(k + 1) =~= entries_in(es@, order@).take(k as int).push(es@[i as int]));
            },
        }
        k += 1;
    }
    assert(entries_in(es@, order@).take(k as int) =~= entries_in(es@, order@));
    r
}

/// The lines of the process table sorted by increasing pid: the heading,
/// then the rows of each process (one per word of its name, see
/// `entry_rows`) by increasing pid. The running times count from the clock
/// origin `system_start` to `now`.
pub fn sortasc(entries: &Vec<TableEntry>, now: u64, system_start: u64) -> (lines: Vec<String>)
    requires
        times_fit(entries@, now, system_start),
    ensures
        texts(lines@) == seq![sorted_heading()] + rows_of(
            entries_in(entries@, pids(entries@).sort_by(pid_leq())),
            now,
            system_start,
            20,
        ),
{
    let keys = pid_list(entries);
    let sorted = sort_pids(&keys);
    proof {
        pids(entries@).lemma_sort_by_ensures(pid_leq());
        lemma_rearranged_pids_found(entries@, sorted@);
    }
    let ordered = reorder(entries, &sorted);
    let mut lines: Vec<String> = Vec::new();
    lines.push(sorted_header());
    assert(texts(lines@) =~= seq![sorted_heading()]);
    push_rows(&mut lines, &ordered, now, system_start, 20);
    lines
}

/// The lines of the process table sorted by decreasing pid: the heading,
/// then the rows of each process by decreasing pid.
pub fn sortdesc(entries: &Vec<TableEntry>, now: u64, system_start: u64) -> (lines: Vec<String>)
    requires
        times_fit(entries@, now, system_start),
    ensures
        texts(lines@) == seq![sorted_heading()] + rows_of(
            entries_in(entries@, pids(entries@).sort_by(pid_leq()).reverse()),
            now,
            system_start,
            20,
        ),
{
    let keys = pid_list(entries);
    let sorted = sort_pids(&keys);
    let mut reversed: Vec<i32> = Vec::new();
    let mut k: usize = sorted.len();
    while k > 0
        invariant
            k <= sorted@.len(),
            reversed@ == sorted@.reverse().take((sorted@.len() - k) as int),
        decreases k,
    {
        k -= 1;
        reversed.push(sorted[k]);
        assert(sorted@.reverse().take((sorted@.len() - k) as int) =~= sorted@.reverse().take((sorted@.len() - k - 1) as int).push(sorted@[k as int]));
    }
    assert(sorted@.reverse().take(sorted@.len() as int) =~= sorted@.reverse());
    assert(reversed@ == sorted@.reverse());
    proof {
        pids(entries@).lemma_sort_by_ensures(pid_leq());
        sorted@.lemma_reverse_to_multiset();
        lemma_rearranged_pids_found(entries@, reversed@);
    }
    let ordered = reorder(entries, &reversed);
    let mut lines: Vec<String> = Vec::new();
    lines.push(sorted_header());
    assert(texts(lines@) =~= seq![sorted_heading()]);
    push_rows(&mut lines, &ordered, now, system_start, 20);
    lines
}

/// The lines of the process table in the order the entries are given: the
/// heading, then the rows of each process.
pub fn processtable(entries: &Vec<TableEntry>, now: u64, system_start: u64) -> (lines: Vec<String>)
    requires
        times_fit(entries@, now, system_start),
    ensures
        texts(lines@) == seq![plain_heading()] + rows_of(entries@, now, system_start, 10),
{
    let mut lines: Vec<String> = Vec::new();
    lines.push(plain_header());
    assert(texts(lines@) =~= seq![plain_heading()]);
    push_rows(&mut lines, entries, now, system_start, 10);
    lines
}

/// The process with pid `pid` among `processes` (the first one, if several).
pub fn findbypid(processes: &Vec<Process>, pid: i32) -> (r: Option<Process>)
    ensures
        r == lookup(processes@, pid),
{
    match find_pid(processes, pid) {
        Some(i) => Some(processes[i].clone()),
        None => None,
    }
}


/// The descending table lists the processes of the ascending one in reverse
/// order.
pub proof fn law_descending_reverses_ascending(es: Seq<TableEntry>, order: Seq<i32>)
    ensures
        entries_in(es, order.reverse()) == entries_in(es, order).reverse(),
{
    assert(entries_in(es, order.reverse()) =~= entries_in(es, order).reverse());
}
} // verus!
