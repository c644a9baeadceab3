use vstd::prelude::*;
use vstd::relations::{sorted_by, total_ordering};

verus! {

/// The order of pids: numeric, smallest first.
pub open spec fn pid_leq() -> spec_fn(i32, i32) -> bool {
    |a: i32, b: i32| a <= b
}

proof fn lemma_pid_leq_total()
    ensures
        total_ordering(pid_leq()),
{
}

/// The pids of `v`, smallest first, as `slice::sort` leaves them.
pub fn sort_pids(v: &Vec<i32>) -> (r: Vec<i32>)
    ensures
        r@ == v@.sort_by(pid_leq()),
{
    let ghost leq = pid_leq();
    let mut r: Vec<i32> = Vec::new();
    let mut i: usize = 0;
    assert(v@.take(0) =~= r@);
    while i < v.len()
        invariant
            i <= v.len(),
            leq == pid_leq(),
            sorted_by(r@, leq),
            r@.to_multiset() == v@.take(i as int).to_multiset(),
        decreases v.len() - i,
    {
        let x = v[i];
        let mut p: usize = 0;
        while p < r.len() && r[p] <= x
            invariant
                p <= r.len(),
                forall|k: int| 0 <= k < p ==> r@[k] <= x,
            decreases r.len() - p,
        {
            p += 1;
        }
        let ghost old_r = r@;
        r.insert(p, x);
        proof {
            assert forall|a: int, b: int| 0 <= a < b < r@.len() implies #[trigger] leq(r@[a], r@[b]) by {
                if b < p {
                    assert(leq(old_r[a], old_r[b]));
                } else if b == p {
                    assert(old_r[a] <= x);
                } else if a < p {
                    assert(old_r[a] <= x);
                    assert(x < old_r[p as int]);
                    assert(leq(old_r[p as int], old_r[b - 1]) || p == b - 1);
                } else if a == p {
                    assert(x < old_r[p as int]);
                    assert(leq(old_r[p as int], old_r[b - 1]) || p == b - 1);
                } else {
                    assert(leq(old_r[a - 1], old_r[b - 1]));
                }
            }
            vstd::seq_lib::to_multiset_insert(old_r, p as int, x);
            assert(v@.take(i + 1) =~= v@.take(i as int).push(x));
            vstd::seq_lib::to_multiset_build(v@.take(i as int), x);
        }
        i += 1;
    }
    proof {
        assert(v@.take(v.len() as int) =~= v@);
        lemma_pid_leq_total();
        v@.lemma_sort_by_ensures(leq);
        vstd::seq_lib::lemma_sorted_unique(r@, v@.sort_by(leq), leq);
    }
    r
}

/// A record that carries a pid.
pub trait HasPid {
    /// The pid of the record.
    spec fn pid_key(&self) -> i32;

    /// Reads the pid of the record.
    fn get_pid(&self) -> (p: i32)
        ensures
            p == self.pid_key();
}

/// The first record of `records` with pid `pid`, if any.
pub open spec fn lookup<T: HasPid>(records: Seq<T>, pid: i32) -> Option<T>
    decreases records.len(),
{
    if records.len() == 0 {
        None
    } else if records[0].pid_key() == pid {
        Some(records[0])
    } else {
        lookup(records.drop_first(), pid)
    }
}

/// The pids of the records, in order.
pub open spec fn pids<T: HasPid>(records: Seq<T>) -> Seq<i32> {
    records.map_values(|r: T| r.pid_key())
}

/// Where the record of `pid` stands in `records` (the first one, if several).
pub fn find_pid<T: HasPid>(records: &Vec<T>, pid: i32) -> (r: Option<usize>)
    ensures
        match r {
            Some(i) => i < records@.len() && lookup(records@, pid) == Some(records@[i as int]),
            None => lookup(records@, pid) is None,
        },
{
    let mut i: usize = 0;
    assert(records@.skip(0) =~= records@);
    while i < records.len()
        invariant
            i <= records@.len(),
            lookup(records@, pid) == lookup(records@.skip(i as int), pid),
        decreases records.len() - i,
    {
        assert(records@.skip(i as int)[0] == records@[i as int]);
        if records[i].get_pid() == pid {
            return Some(i);
        }
        assert(records@.skip(i as int).drop_first() =~= records@.skip(i + 1));
        i += 1;
    }
    None
}

/// The pids of the records, in order.
pub fn pid_list<T: HasPid>(records: &Vec<T>) -> (v: Vec<i32>)
    ensures
        v@ == pids(records@),
{
    let mut v: Vec<i32> = Vec::new();
    let mut i: usize = 0;
    while i < records.len()
        invariant
            i <= records@.len(),
            v@ == pids(records@).take(i as int),
        decreases records.len() - i,
    {
        v.push(records[i].get_pid());
        i += 1;
        assert(pids(records@).take(i as int) =~= pids(records@).take(i - 1).push(records@[i - 1].pid_key()));
    }
    assert(pids(records@).take(i as int) =~= pids(records@));
    v
}

/// A pid that some record carries is found by `lookup`.
pub proof fn lemma_lookup_found<T: HasPid>(records: Seq<T>, j: int)
    requires
        0 <= j < records.len(),
    ensures
        lookup(records, records[j].pid_key()) is Some,
    decreases records.len(),
{
    if j > 0 && records[0].pid_key() != records[j].pid_key() {
        assert(records.drop_first()[j - 1] == records[j]);
        lemma_lookup_found(records.drop_first(), j - 1);
    }
}

/// Every pid of a rearrangement of the records' pids names a record.
pub proof fn lemma_rearranged_pids_found<T: HasPid>(records: Seq<T>, order: Seq<i32>)
    requires
        order.to_multiset() == pids(records).to_multiset(),
    ensures
        forall|k: int| 0 <= k < order.len() ==> lookup(records, #[trigger] order[k]) is Some,
{
    broadcast use vstd::seq_lib::group_to_multiset_ensures;
    assert forall|k: int| 0 <= k < order.len() implies lookup(records, #[trigger] order[k]) is Some by {
        assert(order.contains(order[k]));
        assert(order.to_multiset().contains(order[k]));
        assert(pids(records).to_multiset().contains(order[k]));
        assert(pids(records).contains(order[k]));
        let j = choose|j: int| 0 <= j < pids(records).len() && pids(records)[j] == order[k];
        lemma_lookup_found(records, j);
    }
}

} // verus!
