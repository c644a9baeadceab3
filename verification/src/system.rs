use vstd::prelude::*;
use crate::text::{fill, int_text, push_text, push_i32};
use crate::process::Process;
use crate::order::{pid_leq, sort_pids, lookup, pids, find_pid, pid_list, lemma_rearranged_pids_found};

verus! {

/// What one refresh of the operating system's counters reports.
pub struct Sample {
    /// Usage of the first (aggregate) processor, in hundredths of a percent.
    pub cpu_usage: u64,
    /// Usage of each core after the first, in hundredths of a percent.
    pub core_usages: Vec<u16>,
    pub mem_used: u64,
    pub mem_free: u64,
    /// The process table, one record per pid.
    pub processes: Vec<Process>,
}

/// The state of the monitor: current readings and the recent history of the
/// CPU and memory usage.
pub struct System {
    pub cpu_usage_history: Vec<u64>,
    pub cpu_current_usage: u64,
    pub cpu_num_cores: usize,
    pub mem_total: u64,
    pub mem_free: u64,
    pub mem_used: u64,
    pub mem_usage_history: Vec<u64>,
    pub cpu_core_usages: Vec<u16>,
    pub processes: Vec<Process>,
}

/// A history after one more reading: the reading is appended and the oldest
/// entry dropped, so the history keeps its length.
pub open spec fn window(history: Seq<u64>, reading: u64) -> Seq<u64> {
    history.push(reading).drop_first()
}

/// A history after the readings of `readings` came in, one after the other.
pub open spec fn after_readings(history: Seq<u64>, readings: Seq<u64>) -> Seq<u64>
    decreases readings.len(),
{
    if readings.len() == 0 {
        history
    } else {
        window(after_readings(history, readings.drop_last()), readings.last())
    }
}

/// Two monitor states that hold the same readings.
pub open spec fn same_readings(a: System, b: System) -> bool {
    &&& a.cpu_usage_history@ == b.cpu_usage_history@
    &&& a.cpu_current_usage == b.cpu_current_usage
    &&& a.cpu_num_cores == b.cpu_num_cores
    &&& a.mem_total == b.mem_total
    &&& a.mem_free == b.mem_free
    &&& a.mem_used == b.mem_used
    &&& a.mem_usage_history@ == b.mem_usage_history@
    &&& a.cpu_core_usages@ == b.cpu_core_usages@
    &&& a.processes@ == b.processes@
}

/// The record of the process that `parent` names, if it is in the table.
pub open spec fn parent_record(procs: Seq<Process>, parent: Option<i32>) -> Option<Process> {
    match parent {
        Some(p) => lookup(procs, p),
        None => None,
    }
}

/// Whether following parents from `parent` leaves the table within `steps`
/// steps (the parent relation has no cycle on this chain).
pub open spec fn ends_within(procs: Seq<Process>, parent: Option<i32>, steps: nat) -> bool
    decreases steps,
{
    match parent_record(procs, parent) {
        None => true,
        Some(q) => steps > 0 && ends_within(procs, q.parent, (steps - 1) as nat),
    }
}

/// The number of ancestors found in the table by following parents from
/// `parent`, for at most `steps` steps.
pub open spec fn depth(procs: Seq<Process>, parent: Option<i32>, steps: nat) -> nat
    decreases steps,
{
    match parent_record(procs, parent) {
        None => 0,
        Some(q) => if steps == 0 { 0 } else { 1 + depth(procs, q.parent, (steps - 1) as nat) },
    }
}

/// Whether no chain of parents in the table loops.
pub open spec fn acyclic(procs: Seq<Process>) -> bool {
    forall|i: int| 0 <= i < procs.len() ==> ends_within(procs, #[trigger] procs[i].parent, procs.len())
}

/// The line of the tree for the process `p`: two spaces per ancestor in the
/// table, the name, `N/A` where the parent's name would stand (the walk up the
/// chain stops only at a parent outside the table, which has no name), and
/// the pid in brackets.
pub open spec fn tree_line(procs: Seq<Process>, p: Process) -> Seq<char> {
    fill(2 * depth(procs, p.parent, procs.len()), ' ') + p.name@ + "N/A"@ + " ("@
        + int_text(p.pid as int) + ")\n"@
}

/// The lines of the tree for the pids of `order`, one after the other.
pub open spec fn tree_text(procs: Seq<Process>, order: Seq<i32>) -> Seq<char>
    decreases order.len(),
{
    if order.len() == 0 {
        Seq::empty()
    } else {
        tree_text(procs, order.drop_last()) + tree_line(procs, lookup(procs, order.last()).unwrap())
    }
}

/// The number of ancestors of a process with parent `parent` in the table.
fn ancestors(procs: &Vec<Process>, parent: Option<i32>) -> (d: usize)
    requires
        ends_within(procs@, parent, procs@.len()),
    ensures
        d == depth(procs@, parent, procs@.len()),
{
    let ghost n = procs@.len();
    let mut cur = parent;
    let mut d: usize = 0;
    loop
        invariant
            d <= n,
            n == procs.len(),
            ends_within(procs@, cur, (n - d) as nat),
            depth(procs@, parent, n) == d + depth(procs@, cur, (n - d) as nat),
        decreases n - d,
    {
        match cur {
            None => {
                return d;
            },
            Some(p) => {
                match find_pid(procs, p) {
                    None => {
                        return d;
                    },
                    Some(i) => {
                        cur = procs[i].parent;
                        d += 1;
                    },
                }
            },
        }
    }
}

impl System {
    /// A monitor whose CPU and memory histories hold `initial_size / 2` zero
    /// readings, for a machine with `processor_count` processors (the first
    /// of which is the aggregate, so one core fewer) and `mem_total` memory.
    pub fn new(initial_size: u16, processor_count: usize, mem_total: u64) -> (s: System)
        requires
            processor_count >= 1,
        ensures
            s.cpu_usage_history@ == Seq::new((initial_size / 2) as nat, |i: int| 0u64),
            s.mem_usage_history@ == Seq::new((initial_size / 2) as nat, |i: int| 0u64),
            s.cpu_current_usage == 0,
            s.cpu_num_cores == processor_count - 1,
            s.mem_total == mem_total,
            s.mem_free == 0,
            s.mem_used == 0,
            s.cpu_core_usages@.len() == 0,
            s.processes@.len() == 0,
    {
        let history_width = initial_size / 2;
        let cpu_usage_history = zeros(history_width as usize);
        let mem_usage_history = zeros(history_width as usize);
        System {
            cpu_usage_history,
            cpu_current_usage: 0,
            cpu_num_cores: processor_count - 1,
            mem_total,
            mem_free: 0,
            mem_used: 0,
            mem_usage_history,
            cpu_core_usages: Vec::new(),
            processes: Vec::new(),
        }
    }

    /// Records one refresh: the current CPU usage and the used memory enter
    /// their histories (the oldest entry leaves), the free memory, the core
    /// usages and the process table are replaced. Returns a copy of the new
    /// state.
    pub fn update(&mut self, sample: Sample) -> (copy: System)
        ensures
            final(self).cpu_current_usage == sample.cpu_usage,
            final(self).cpu_usage_history@ == window(old(self).cpu_usage_history@, sample.cpu_usage),
            final(self).mem_used == sample.mem_used,
            final(self).mem_free == sample.mem_free,
            final(self).mem_usage_history@ == window(old(self).mem_usage_history@, sample.mem_used),
            final(self).cpu_core_usages@ == sample.core_usages@,
            final(self).processes@ == sample.processes@,
            final(self).cpu_num_cores == old(self).cpu_num_cores,
            final(self).mem_total == old(self).mem_total,
            same_readings(copy, *final(self)),
    {
        self.cpu_current_usage = sample.cpu_usage;
        self.cpu_usage_history.push(self.cpu_current_usage);
        self.cpu_usage_history.remove(0);

        self.mem_used = sample.mem_used;
        self.mem_free = sample.mem_free;
        self.mem_usage_history.push(self.mem_used);
        self.mem_usage_history.remove(0);

        self.cpu_core_usages = sample.core_usages;
        self.processes = sample.processes;

        let copy = System {
            cpu_usage_history: self.cpu_usage_history.clone(),
            cpu_current_usage: self.cpu_current_usage,
            cpu_num_cores: self.cpu_num_cores,
            mem_total: self.mem_total,
            mem_free: self.mem_free,
            mem_used: self.mem_used,
            mem_usage_history: self.mem_usage_history.clone(),
            cpu_core_usages: self.cpu_core_usages.clone(),
            processes: self.processes.clone(),
        };
        assert(copy.cpu_usage_history@ =~= self.cpu_usage_history@);
        assert(copy.mem_usage_history@ =~= self.mem_usage_history@);
        assert(copy.cpu_core_usages@ =~= self.cpu_core_usages@);
        assert(copy.processes@ =~= self.processes@);
        copy
    }

    /// The process tree as text: one line per process of the recorded table,
    /// by increasing pid, each indented by two spaces per ancestor found in
    /// the table (see `tree_line`).
    pub fn pstree(&self) -> (tree: String)
        requires
            acyclic(self.processes@),
        ensures
            tree@ == tree_text(self.processes@, pids(self.processes@).sort_by(pid_leq())),
    {
        let procs = &self.processes;
        let keys = pid_list(procs);
        let sorted = sort_pids(&keys);
        let ghost order = sorted@;
        let mut tree = String::new();
        let mut k: usize = 0;
        proof {
            pids(procs@).lemma_sort_by_ensures(pid_leq());
        }
        assert(order.take(0) =~= Seq::<i32>::empty());
        while k < sorted.len()
            invariant
                procs == &self.processes,
                acyclic(procs@),
                order == sorted@,
                order == pids(procs@).sort_by(pid_leq()),
                pids(procs@).to_multiset() =~= order.to_multiset(),
                k <= sorted.len(),
                tree@ == tree_text(procs@, order.take(k as int)),
            decreases sorted.len() - k,
        {
            let pid = sorted[k];
            proof {
                lemma_rearranged_pids_found(procs@, order);
                assert(lookup(procs@, order[k as int]) is Some);
            }
            match find_pid(procs, pid) {
                None => {
                    assert(false);
                },
                Some(i) => {
                    let p = &procs[i];
                    let d = ancestors(procs, p.parent);
                    let ghost before = tree@;
                    let mut j: usize = 0;
                    while j < d
                        invariant
                            j <= d,
                            tree@ == before + fill(2 * j as nat, ' '),
                        decreases d - j,
                    {
                        tree.push(' ');
                        tree.push(' ');
                        j += 1;
                        assert(fill(2 * j as nat, ' ') =~= fill(2 * (j - 1) as nat, ' ').push(' ').push(' '));
                    }
                    push_text(&mut tree, p.name.as_str());
                    push_text(&mut tree, "N/A");
                    push_text(&mut tree, " (");
                    push_i32(&mut tree, p.pid);
                    push_text(&mut tree, ")\n");
                    assert(order.take(k + 1).drop_last() =~= order.take(k as int));
                    assert(order.take(k + 1).last() == pid);
                    assert(tree@ =~= before + tree_line(procs@, *p));
                },
            }
            k += 1;
        }
        assert(order.take(sorted.len() as int) =~= order);
        tree
    }
}

/// `n` zero readings.
fn zeros(n: usize) -> (v: Vec<u64>)
    ensures
        v@ == Seq::new(n as nat, |i: int| 0u64),
{
    let mut v: Vec<u64> = Vec::new();
    let mut i: usize = 0;
    while i < n
        invariant
            i <= n,
            v@ == Seq::new(i as nat, |k: int| 0u64),
        decreases n - i,
    {
        v.push(0);
        i += 1;
        assert(v@ =~= Seq::new(i as nat, |k: int| 0u64));
    }
    v
}

/// One reading more keeps the history's length, puts the reading last and
/// moves every other entry one place towards the front.
pub proof fn law_history_window(history: Seq<u64>, reading: u64)
    requires
        history.len() > 0,
    ensures
        window(history, reading).len() == history.len(),
        window(history, reading).last() == reading,
        forall|i: int| 0 <= i < history.len() - 1 ==> #[trigger] window(history, reading)[i] == history[i + 1],
{
}

/// However many readings come in, a history keeps its length and holds the
/// latest readings: what the history and the readings hold together, less
/// as many of the oldest entries as readings came in. So the CPU and memory
/// histories of a monitor made by `System::new(initial_size, ..)` hold
/// `initial_size / 2` entries after any number of `update` calls.
pub proof fn law_history_after_updates(history: Seq<u64>, readings: Seq<u64>)
    ensures
        after_readings(history, readings).len() == history.len(),
        after_readings(history, readings) == (history + readings).skip(readings.len() as int),
    decreases readings.len(),
{
    if readings.len() > 0 {
        let rest = readings.drop_last();
        law_history_after_updates(history, rest);
        assert((history + readings) =~= (history + rest).push(readings.last()));
        assert((history + rest).push(readings.last()).skip(readings.len() as int)
            =~= (history + rest).skip(rest.len() as int).push(readings.last()).drop_first());
    }
}

/// A monitor made by `System::new(initial_size, ..)` starts with histories
/// of `initial_size / 2` zeros; after any readings they still hold
/// `initial_size / 2` entries.
pub proof fn law_history_length_from_start(initial_size: u16, readings: Seq<u64>)
    ensures
        after_readings(Seq::new((initial_size / 2) as nat, |i: int| 0u64), readings).len() == initial_size / 2,
{
    law_history_after_updates(Seq::new((initial_size / 2) as nat, |i: int| 0u64), readings);
}


/// The line of the process `r` in the tree when it is indented by `indent`
/// spaces.
pub open spec fn indented_line(indent: nat, r: Process) -> Seq<char> {
    fill(indent, ' ') + r.name@ + "N/A"@ + " ("@ + int_text(r.pid as int) + ")\n"@
}

/// A chain that leaves the table within `steps` steps finds the same
/// ancestors when allowed one step more.
proof fn lemma_depth_settled(procs: Seq<Process>, parent: Option<i32>, steps: nat)
    requires
        ends_within(procs, parent, steps),
    ensures
        depth(procs, parent, steps + 1) == depth(procs, parent, steps),
    decreases steps,
{
    match parent_record(procs, parent) {
        None => {},
        Some(q) => {
            lemma_depth_settled(procs, q.parent, (steps - 1) as nat);
            assert((steps - 1) as nat + 1 == steps);
        },
    }
}

/// The tree's indentation: a process whose parent is not in the table
/// starts its line at the margin, and the line of a process whose parent is
/// in the table is indented two spaces more than its parent's line, at
/// every depth.
pub proof fn law_tree_indent_grows_by_two(procs: Seq<Process>, i: int, n: nat)
    requires
        acyclic(procs),
        0 <= i < procs.len(),
    ensures
        parent_record(procs, procs[i].parent) is None ==> tree_line(procs, procs[i]) == indented_line(0, procs[i]),
        parent_record(procs, procs[i].parent) is Some
            && tree_line(procs, parent_record(procs, procs[i].parent).unwrap())
                == indented_line(n, parent_record(procs, procs[i].parent).unwrap())
            ==> tree_line(procs, procs[i]) == indented_line(n + 2, procs[i]),
{
    let p = procs[i];
    let len = procs.len();
    assert(ends_within(procs, p.parent, len));
    match parent_record(procs, p.parent) {
        None => {
            assert(depth(procs, p.parent, len) == 0);
            assert(fill(0, ' ') =~= Seq::<char>::empty());
            assert(tree_line(procs, p) =~= indented_line(0, p));
        },
        Some(q) => {
            assert(ends_within(procs, q.parent, (len - 1) as nat));
            lemma_depth_settled(procs, q.parent, (len - 1) as nat);
            assert((len - 1) as nat + 1 == len);
            let d = depth(procs, q.parent, len);
            assert(depth(procs, p.parent, len) == 1 + d);
            if tree_line(procs, q) == indented_line(n, q) {
                let body = q.name@ + "N/A"@ + " ("@ + int_text(q.pid as int) + ")\n"@;
                assert(tree_line(procs, q) =~= fill(2 * d, ' ') + body);
                assert(indented_line(n, q) =~= fill(n, ' ') + body);
                assert(tree_line(procs, q).len() == 2 * d + body.len());
                assert(indented_line(n, q).len() == n + body.len());
                assert(n == 2 * d);
                assert(tree_line(procs, p) =~= indented_line(n + 2, p));
            }
        },
    }
}
} // verus!
