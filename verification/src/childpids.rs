//! Breadth-first discovery of a process's descendants.
//!
//! The parent/child relation is taken from a one-shot listing of the live
//! processes (each entry carries a pid and its parent's pid). The tree below
//! a root pid is built from that snapshot and flattened in level order, root
//! excluded, siblings in listing order. The walk never re-queries the live
//! process table: it can miss a process that started after the snapshot and
//! include one that already exited, which is accepted by design.
//!
//! Tree depth is bounded by the number of listed processes, so the walk
//! terminates even on a malformed listing whose parent links form a cycle;
//! on any acyclic listing the bound is never reached.

use vstd::prelude::*;

verus! {

/// One process in a point-in-time listing: its pid, and its parent's pid if
/// it has a parent.
#[derive(Clone, Copy, PartialEq, Eq, Debug)]
pub struct ProcessEntry {
    pub pid: i32,
    pub parent: Option<i32>,
}

/// A tree of values: a node and the subtrees below it.
#[derive(Debug)]
pub struct Node<T> {
    pub value: T,
    pub children: Vec<Node<T>>,
}

/// Number of nodes in a forest.
pub open spec fn forest_size<T>(q: Seq<Node<T>>) -> nat
    decreases q,
{
    if q.len() == 0 {
        0
    } else {
        1 + forest_size(q[0].children@) + forest_size(q.drop_first())
    }
}

/// Node counts add up over concatenation.
pub proof fn lemma_forest_size_concat<T>(a: Seq<Node<T>>, b: Seq<Node<T>>)
    ensures
        forest_size(a + b) == forest_size(a) + forest_size(b),
    decreases a.len(),
{
    if a.len() == 0 {
        assert(a + b =~= b);
    } else {
        assert((a + b).drop_first() =~= a.drop_first() + b);
        assert((a + b)[0] == a[0]);
        lemma_forest_size_concat(a.drop_first(), b);
    }
}

/// The values of a forest in breadth-first (level) order: the first tree's
/// root, then the rest of the level, then every root's children in turn.
pub open spec fn bfs_values<T>(q: Seq<Node<T>>) -> Seq<T>
    decreases forest_size(q),
    via bfs_values_decreases::<T>
{
    if q.len() == 0 {
        Seq::empty()
    } else {
        seq![q[0].value] + bfs_values(q.drop_first() + q[0].children@)
    }
}

#[via_fn]
proof fn bfs_values_decreases<T>(q: Seq<Node<T>>) {
    if q.len() > 0 {
        lemma_forest_size_concat(q.drop_first(), q[0].children@);
    }
}

/// Flattens a tree in breadth-first order, excluding the root's own value:
/// the result is the level-order listing of everything below the root.
pub fn flatten_tree_breadth_first<T>(root: Node<T>) -> (r: Vec<T>)
    ensures
        r@ == bfs_values(root.children@),
{
    let Node { value: _, children } = root;
    let ghost all = bfs_values(children@);
    let mut queue: Vec<Node<T>> = children;
    let mut out: Vec<T> = Vec::new();
    while queue.len() > 0
        invariant
            out@ + bfs_values(queue@) =~= all,
        decreases forest_size(queue@),
    {
        let ghost prev = queue@;
        let node = queue.remove(0);
        proof {
            assert(queue@ =~= prev.drop_first());
            assert(node == prev[0]);
            lemma_forest_size_concat(prev.drop_first(), node.children@);
        }
        let Node { value, children: mut grandchildren } = node;
        out.push(value);
        queue.append(&mut grandchildren);
        proof {
            assert(out@ + bfs_values(queue@) =~= all);
        }
    }
    proof {
        assert(out@ + bfs_values(queue@) =~= out@);
    }
    out
}

/// The pids whose entries name `parent` as their parent, in listing order.
pub open spec fn child_pids_of(parent: i32, listing: Seq<ProcessEntry>) -> Seq<i32>
    decreases listing.len(),
{
    if listing.len() == 0 {
        Seq::empty()
    } else {
        let rest = child_pids_of(parent, listing.drop_last());
        if listing.last().parent == Option::<i32>::Some(parent) {
            rest.push(listing.last().pid)
        } else {
            rest
        }
    }
}

/// Ghost image of a process tree.
pub struct ProcTree {
    pub pid: i32,
    pub kids: Seq<ProcTree>,
}

/// Number of nodes in a ghost forest.
pub open spec fn ptree_size(q: Seq<ProcTree>) -> nat
    decreases q,
{
    if q.len() == 0 {
        0
    } else {
        1 + ptree_size(q[0].kids) + ptree_size(q.drop_first())
    }
}

/// Ghost node counts add up over concatenation.
pub proof fn lemma_ptree_size_concat(a: Seq<ProcTree>, b: Seq<ProcTree>)
    ensures
        ptree_size(a + b) == ptree_size(a) + ptree_size(b),
    decreases a.len(),
{
    if a.len() == 0 {
        assert(a + b =~= b);
    } else {
        assert((a + b).drop_first() =~= a.drop_first() + b);
        assert((a + b)[0] == a[0]);
        lemma_ptree_size_concat(a.drop_first(), b);
    }
}

/// Ghost image of an executable forest.
pub open spec fn forest_view(q: Seq<Node<i32>>) -> Seq<ProcTree>
    decreases q,
{
    if q.len() == 0 {
        Seq::empty()
    } else {
        seq![ProcTree { pid: q[0].value, kids: forest_view(q[0].children@) }] + forest_view(
            q.drop_first(),
        )
    }
}

/// The view of a forest distributes over concatenation.
pub proof fn lemma_forest_view_concat(a: Seq<Node<i32>>, b: Seq<Node<i32>>)
    ensures
        forest_view(a + b) == forest_view(a) + forest_view(b),
    decreases a.len(),
{
    if a.len() == 0 {
        assert(a + b =~= b);
        assert(forest_view(a) + forest_view(b) =~= forest_view(b));
    } else {
        assert((a + b).drop_first() =~= a.drop_first() + b);
        assert((a + b)[0] == a[0]);
        lemma_forest_view_concat(a.drop_first(), b);
        assert(forest_view(a + b) =~= forest_view(a) + forest_view(b));
    }
}

/// The forest grown from a listing below the given roots: one tree per root
/// pid, whose children are the trees below the pids listing that root as
/// parent. Recursion depth is bounded by `fuel`.
pub open spec fn spec_forest(pids: Seq<i32>, listing: Seq<ProcessEntry>, fuel: nat) -> Seq<ProcTree>
    decreases fuel, pids.len(),
{
    if fuel == 0 || pids.len() == 0 {
        Seq::empty()
    } else {
        seq![
            ProcTree {
                pid: pids[0],
                kids: spec_forest(child_pids_of(pids[0], listing), listing, (fuel - 1) as nat),
            },
        ] + spec_forest(pids.drop_first(), listing, fuel)
    }
}

/// Growing the root list by one pid appends that pid's tree to the forest.
pub proof fn lemma_spec_forest_push(pids: Seq<i32>, p: i32, listing: Seq<ProcessEntry>, fuel: nat)
    requires
        fuel > 0,
    ensures
        spec_forest(pids.push(p), listing, fuel) == spec_forest(pids, listing, fuel) + seq![
            ProcTree {
                pid: p,
                kids: spec_forest(child_pids_of(p, listing), listing, (fuel - 1) as nat),
            },
        ],
    decreases pids.len(),
{
    let tail = seq![
        ProcTree {
            pid: p,
            kids: spec_forest(child_pids_of(p, listing), listing, (fuel - 1) as nat),
        },
    ];
    if pids.len() == 0 {
        assert(pids.push(p).drop_first() =~= Seq::<i32>::empty());
        assert(pids.push(p)[0] == p);
        assert(spec_forest(pids.push(p), listing, fuel) =~= spec_forest(pids, listing, fuel)
            + tail) by {
            reveal_with_fuel(spec_forest, 2);
        }
    } else {
        assert(pids.push(p).drop_first() =~= pids.drop_first().push(p));
        assert(pids.push(p)[0] == pids[0]);
        lemma_spec_forest_push(pids.drop_first(), p, listing, fuel);
        let head = seq![
            ProcTree {
                pid: pids[0],
                kids: spec_forest(child_pids_of(pids[0], listing), listing, (fuel - 1) as nat),
            },
        ];
        assert(spec_forest(pids.push(p), listing, fuel) == head + (spec_forest(
            pids.drop_first(),
            listing,
            fuel,
        ) + tail));
        assert(spec_forest(pids, listing, fuel) == head + spec_forest(
            pids.drop_first(),
            listing,
            fuel,
        ));
        assert(head + (spec_forest(pids.drop_first(), listing, fuel) + tail) =~= (head
            + spec_forest(pids.drop_first(), listing, fuel)) + tail);
    }
}

/// Breadth-first values of a ghost forest.
pub open spec fn spec_bfs(q: Seq<ProcTree>) -> Seq<i32>
    decreases ptree_size(q),
    via spec_bfs_decreases
{
    if q.len() == 0 {
        Seq::empty()
    } else {
        seq![q[0].pid] + spec_bfs(q.drop_first() + q[0].kids)
    }
}

#[via_fn]
proof fn spec_bfs_decreases(q: Seq<ProcTree>) {
    if q.len() > 0 {
        lemma_ptree_size_concat(q.drop_first(), q[0].kids);
    }
}

/// Flattening an executable forest in breadth-first order is the same as
/// flattening its ghost image.
pub proof fn lemma_bfs_view(q: Seq<Node<i32>>)
    ensures
        bfs_values(q) == spec_bfs(forest_view(q)),
    decreases forest_size(q),
{
    if q.len() == 0 {
        assert(forest_view(q) =~= Seq::<ProcTree>::empty());
    } else {
        let head = ProcTree { pid: q[0].value, kids: forest_view(q[0].children@) };
        assert(forest_view(q)[0] == head);
        assert(forest_view(q).drop_first() =~= forest_view(q.drop_first()));
        lemma_forest_view_concat(q.drop_first(), q[0].children@);
        assert(forest_view(q).drop_first() + forest_view(q)[0].kids =~= forest_view(
            q.drop_first() + q[0].children@,
        ));
        lemma_forest_size_concat(q.drop_first(), q[0].children@);
        lemma_bfs_view(q.drop_first() + q[0].children@);
        assert(bfs_values(q) =~= spec_bfs(forest_view(q)));
    }
}

/// The descendants of a root pid in a listing: the breadth-first values of
/// the forest below it, the root itself excluded.
pub open spec fn spec_descendants(parent: i32, listing: Seq<ProcessEntry>) -> Seq<i32> {
    spec_bfs(spec_forest(child_pids_of(parent, listing), listing, listing.len()))
}

/// Builds the trees below one parent pid, depth-bounded by `fuel`.
fn get_children_rec(parent_pid: i32, processes: &Vec<ProcessEntry>, fuel: usize) -> (r: Vec<
    Node<i32>,
>)
    ensures
        forest_view(r@) == spec_forest(
            child_pids_of(parent_pid, processes@),
            processes@,
            fuel as nat,
        ),
    decreases fuel,
{
    let mut out: Vec<Node<i32>> = Vec::new();
    if fuel == 0 {
        proof {
            assert(forest_view(out@) =~= Seq::<ProcTree>::empty());
        }
        return out;
    }
    let mut i: usize = 0;
    while i < processes.len()
        invariant
            fuel > 0,
            i <= processes@.len(),
            forest_view(out@) == spec_forest(
                child_pids_of(parent_pid, processes@.take(i as int)),
                processes@,
                fuel as nat,
            ),
        decreases processes@.len() - i,
    {
        let e = processes[i];
        proof {
            assert(processes@.take(i + 1).drop_last() =~= processes@.take(i as int));
            assert(processes@.take(i + 1).last() == processes@[i as int]);
        }
        let matched = match e.parent {
            Option::Some(p) => p == parent_pid,
            Option::None => false,
        };
        if matched {
            let kids = get_children_rec(e.pid, processes, fuel - 1);
            let ghost kids_view = forest_view(kids@);
            let node = Node { value: e.pid, children: kids };
            proof {
                let cp = child_pids_of(parent_pid, processes@.take(i as int));
                lemma_spec_forest_push(cp, e.pid, processes@, fuel as nat);
                lemma_forest_view_concat(out@, seq![node]);
                assert(out@.push(node) =~= out@ + seq![node]);
                assert(seq![node].drop_first() =~= Seq::<Node<i32>>::empty());
                assert(forest_view(Seq::<Node<i32>>::empty()) =~= Seq::<ProcTree>::empty());
                assert(forest_view(seq![node]) =~= seq![
                    ProcTree { pid: e.pid, kids: kids_view },
                ]);
            }
            out.push(node);
        }
        i = i + 1;
    }
    proof {
        assert(processes@.take(i as int) =~= processes@);
    }
    out
}

/// Builds the trees below one parent pid from a process listing; the tree
/// depth is bounded by the listing's length, which no acyclic listing can
/// reach.
pub fn get_children(parent_pid: i32, processes: &Vec<ProcessEntry>) -> (r: Vec<Node<i32>>)
    ensures
        forest_view(r@) == spec_forest(
            child_pids_of(parent_pid, processes@),
            processes@,
            processes@.len(),
        ),
{
    let fuel = processes.len();
    get_children_rec(parent_pid, processes, fuel)
}

/// The descendants of `parent_pid` in the given listing, breadth-first,
/// siblings in listing order, the root itself excluded.
pub fn descendants_of(parent_pid: i32, processes: &Vec<ProcessEntry>) -> (r: Vec<i32>)
    ensures
        r@ == spec_descendants(parent_pid, processes@),
{
    let children = get_children(parent_pid, processes);
    proof {
        lemma_bfs_view(children@);
    }
    let root = Node { value: parent_pid, children };
    flatten_tree_breadth_first(root)
}

/// Names the outside type so a snapshot can be carried between the trusted
/// calls below.
#[verifier::external_type_specification]
#[verifier::external_body]
pub struct ExSystem(sysinfo::System);

/// Relies on sysinfo::System::new_all: reads a snapshot of the host's state,
/// including the live process table, at the moment of the call.
#[verifier::external_body]
fn system_snapshot() -> sysinfo::System {
    sysinfo::System::new_all()
}

/// Relies on sysinfo::System::processes: one entry per process in the
/// snapshot, carrying its pid and its parent's pid. The entries come in the
/// underlying hash map's iteration order, which is arbitrary, and nothing
/// else is known of them, so no contract is stated.
#[verifier::external_body]
fn listing_of(system: &sysinfo::System) -> (r: Vec<ProcessEntry>) {
    let mut out = Vec::new();
    for (pid, process) in system.processes() {
        out.push(
            ProcessEntry {
                pid: pid.as_u32() as i32,
                parent: process.parent().map(|p| p.as_u32() as i32),
            },
        );
    }
    out
}

/// The descendants of `parent_pid` among the processes live right now,
/// breadth-first, the root excluded. The result depends on the host's
/// process table at the moment of the call (and on the listing's arbitrary
/// order), so no contract can pin it down; [`descendants_of`] carries the
/// verified relation between a listing and the walk's result.
pub fn get_children_pids(parent_pid: i32) -> Vec<i32> {
    let system = system_snapshot();
    let processes = listing_of(&system);
    descendants_of(parent_pid, &processes)
}

} // verus!
