use vstd::prelude::*;
use ptree::builder::TreeBuilder;
use ptree::item::StringItem;
use crate::text::{int_text, i32_text, text_of};
use crate::process::Process;
use crate::order::{pid_leq, sort_pids, lookup, find_pid, pids, pid_list, lemma_rearranged_pids_found};

verus! {

#[verifier::external_type_specification]
#[verifier::external_body]
pub struct ExTreeBuilder(ptree::builder::TreeBuilder);

#[verifier::external_type_specification]
#[verifier::external_body]
pub struct ExStringItem(ptree::item::StringItem);

/// What a tree builder holds: the text of its top item, followed by the
/// texts of the top item's children in order.
pub uninterp spec fn builder_outline(b: TreeBuilder) -> Seq<Seq<char>>;

/// How many items a tree builder has opened below the top item and not yet
/// closed (children are added to the innermost open item).
pub uninterp spec fn builder_depth(b: TreeBuilder) -> nat;

/// How many levels of items a tree builder's top item has below it: `0`
/// without children, `1` when its children have no children, and so on.
pub uninterp spec fn builder_height(b: TreeBuilder) -> nat;

/// How many levels of items a tree item has below it: `0` without
/// children, `1` when its children have no children, and so on.
pub uninterp spec fn item_height(i: StringItem) -> nat;

/// What a tree item holds: its own text, followed by the texts of its
/// children in order.
pub uninterp spec fn item_outline(i: StringItem) -> Seq<Seq<char>>;

/// `TreeBuilder::new`: the builder starts with a top item of text `text`,
/// no children, and nothing open below the top item.
#[verifier::external_body]
fn tree_builder(text: String) -> (b: TreeBuilder)
    ensures
        builder_outline(b) == seq![text@],
        builder_depth(b) == 0,
        builder_height(b) == 0,
{
    TreeBuilder::new(text)
}

/// `TreeBuilder::add_empty_child`: with nothing open below the top item, it
/// appends a childless item of text `text` to the top item's children and
/// leaves nothing open; the tree is then at least one level high.
#[verifier::external_body]
fn add_leaf(b: &mut TreeBuilder, text: String)
    requires
        builder_depth(*old(b)) == 0,
    ensures
        builder_outline(*final(b)) == builder_outline(*old(b)).push(text@),
        builder_depth(*final(b)) == 0,
        builder_height(*final(b)) == if builder_height(*old(b)) == 0 { 1 } else { builder_height(*old(b)) },
{
    b.add_empty_child(text);
}

/// `TreeBuilder::build`: a copy of the top item as built so far; the builder
/// is left as it was.
#[verifier::external_body]
fn build_tree(b: &mut TreeBuilder) -> (i: StringItem)
    ensures
        item_outline(i) == builder_outline(*old(b)),
        item_height(i) == builder_height(*old(b)),
        *final(b) == *old(b),
{
    b.build()
}

/// The pid under which a process is grouped: its parent, or `0` without one.
pub open spec fn parent_key(p: Process) -> i32 {
    match p.parent {
        Some(q) => q,
        None => 0,
    }
}

/// The group keys of the processes of the pids of `order`.
pub open spec fn keys_of(procs: Seq<Process>, order: Seq<i32>) -> Seq<i32> {
    order.map_values(|pid: i32| parent_key(lookup(procs, pid).unwrap()))
}

/// The children of the tree's top item for the pids of `order`: for each
/// group of processes with the same parent, in the order the groups first
/// appear, the pid of its first process followed by a blank item.
pub open spec fn tree_leaves(procs: Seq<Process>, order: Seq<i32>) -> Seq<Seq<char>>
    decreases order.len(),
{
    if order.len() == 0 {
        Seq::empty()
    } else {
        let prev = order.drop_last();
        let rest = tree_leaves(procs, prev);
        if keys_of(procs, prev).contains(parent_key(lookup(procs, order.last()).unwrap())) {
            rest
        } else {
            rest + seq![int_text(order.last() as int), " "@]
        }
    }
}

fn holds(v: &Vec<i32>, x: i32) -> (r: bool)
    ensures
        r == v@.contains(x),
{
    let mut i: usize = 0;
    while i < v.len()
        invariant
            i <= v@.len(),
            forall|k: int| 0 <= k < i ==> v@[k] != x,
        decreases v.len() - i,
    {
        if v[i] == x {
            assert(v@[i as int] == x);
            return true;
        }
        i += 1;
    }
    false
}

/// The process tree as a tree item: a top item `root` whose children are,
/// for each group of processes sharing a parent (groups taken by the
/// increasing pid of their first process), the pid of the group's first
/// process by increasing pid, then a blank item. These children have no
/// children of their own.
pub fn pstree_new(processes: &Vec<Process>) -> (tree: StringItem)
    ensures
        item_outline(tree) == seq!["root"@] + tree_leaves(processes@, pids(processes@).sort_by(pid_leq())),
        item_height(tree) == if tree_leaves(processes@, pids(processes@).sort_by(pid_leq())).len() == 0 { 0nat } else { 1nat },
{
    let keys = pid_list(processes);
    let sorted = sort_pids(&keys);
    let ghost order = sorted@;
    proof {
        pids(processes@).lemma_sort_by_ensures(pid_leq());
    }
    let mut b = tree_builder(text_of("root"));
    let mut seen: Vec<i32> = Vec::new();
    let mut k: usize = 0;
    assert(order.take(0) =~= Seq::<i32>::empty());
    assert(keys_of(processes@, order.take(0)) =~= seen@);
    assert(seq!["root"@] + tree_leaves(processes@, order.take(0)) =~= seq!["root"@]);
    while k < sorted.len()
        invariant
            order == sorted@,
            order == pids(processes@).sort_by(pid_leq()),
            pids(processes@).to_multiset() =~= order.to_multiset(),
            k <= sorted.len(),
            seen@ == keys_of(processes@, order.take(k as int)),
            builder_depth(b) == 0,
            builder_outline(b) == seq!["root"@] + tree_leaves(processes@, order.take(k as int)),
            builder_height(b) == if tree_leaves(processes@, order.take(k as int)).len() == 0 { 0nat } else { 1nat },
        decreases sorted.len() - k,
    {
        let pid = sorted[k];
        proof {
            lemma_rearranged_pids_found(processes@, order);
            assert(lookup(processes@, order[k as int]) is Some);
        }
        let ghost prev = order.take(k as int);
        assert(order.take(k + 1).drop_last() =~= prev);
        assert(order.take(k + 1).last() == pid);
        match find_pid(processes, pid) {
            None => {
                assert(false);
            },
            Some(i) => {
                let key = match processes[i].parent {
                    Some(q) => q,
                    None => 0,
                };
                assert(key == parent_key(lookup(processes@, pid).unwrap()));
                if !holds(&seen, key) {
                    add_leaf(&mut b, i32_text(pid));
                    add_leaf(&mut b, text_of(" "));
                    assert(builder_outline(b) =~= seq!["root"@] + tree_leaves(processes@, order.take(k + 1)));
                }
                seen.push(key);
                assert(keys_of(processes@, order.take(k + 1)) =~= keys_of(processes@, prev).push(key));
            },
        }
        k += 1;
    }
    assert(order.take(sorted.len() as int) =~= order);
    build_tree(&mut b)
}

} // verus!
