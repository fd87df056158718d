//! The process tree: which processes descend from a given one, so that the
//! audio they play can be told apart from that of other programs.

use std::collections::HashMap;
use std::collections::HashSet;
use vstd::prelude::*;
use vstd::std_specs::iter::IteratorSpec;

verus! {

broadcast use vstd::std_specs::hash::group_hash_axioms;

/// A snapshot of the running processes: executable name and parent of each pid.
#[derive(Debug)]
pub struct ProcSnapshot {
    pub names: HashMap<u32, String>,
    pub parent: HashMap<u32, u32>,
}

impl ProcSnapshot {
    pub fn new() -> (r: ProcSnapshot)
        ensures
            r.names@ == Map::<u32, String>::empty(),
            r.parent@ == Map::<u32, u32>::empty(),
    {
        ProcSnapshot { names: HashMap::new(), parent: HashMap::new() }
    }

    /// Records process `pid`, started by `ppid`, running `name`; a later record
    /// of the same pid replaces the earlier one.
    pub fn record(&mut self, pid: u32, ppid: u32, name: String)
        ensures
            final(self).names@ == old(self).names@.insert(pid, name),
            final(self).parent@ == old(self).parent@.insert(pid, ppid),
    {
        self.names.insert(pid, name);
        self.parent.insert(pid, ppid);
    }
}

/// `child` is listed with `parent_pid` as its parent.
pub open spec fn is_child(parent: Map<u32, u32>, child: u32, parent_pid: u32) -> bool {
    parent.contains_key(child) && parent[child] == parent_pid
}

/// Following the parent links `n` times from `p` leads to `root`.
pub open spec fn parent_chain(parent: Map<u32, u32>, root: u32, p: u32, n: nat) -> bool
    decreases n,
{
    if n == 0 {
        p == root
    } else {
        parent.contains_key(p) && parent_chain(parent, root, parent[p], (n - 1) as nat)
    }
}

/// `p` is `root` itself or descends from it through the parent links.
pub open spec fn descends_from(parent: Map<u32, u32>, root: u32, p: u32) -> bool {
    exists|n: nat| parent_chain(parent, root, p, n)
}

/// A set that holds `root` and, with every member, all of its children,
/// holds every descendant of `root`.
proof fn lemma_closed_set_holds_descendants(parent: Map<u32, u32>, root: u32, s: Set<u32>, p: u32, n: nat)
    requires
        s.contains(root),
        forall|q: u32, k: u32| s.contains(q) && #[trigger] is_child(parent, k, q) ==> s.contains(k),
        parent_chain(parent, root, p, n),
    ensures
        s.contains(p),
    decreases n,
{
    if n > 0 {
        lemma_closed_set_holds_descendants(parent, root, s, parent[p], (n - 1) as nat);
        assert(is_child(parent, p, parent[p]));
    }
}

/// The children map of `parent`: each parent pid with the pids listing it.
fn children_of(parent: &HashMap<u32, u32>) -> (children: HashMap<u32, Vec<u32>>)
    ensures
        forall|c: u32, k: u32|
            (children@.contains_key(c) && children@[c]@.contains(k)) <==> #[trigger] is_child(parent@, k, c),
{
    let mut children: HashMap<u32, Vec<u32>> = HashMap::new();
    for entry in it: parent.iter()
        invariant
            it.seq() == vstd::std_specs::hash::spec_hash_map_iter(parent).remaining(),
            forall|c: u32, k: u32|
                children@.contains_key(c) && children@[c]@.contains(k) ==> #[trigger] is_child(parent@, k, c),
            forall|i: int|
                0 <= i < it.index() ==> children@.contains_key(*(#[trigger] it.seq()[i]).1)
                    && children@[*it.seq()[i].1]@.contains(*it.seq()[i].0),
    {
        let ghost before = children@;
        let ghost idx = it.index();
        let (pid, ppid) = entry;
        let mut kids: Vec<u32> = match children.remove(ppid) {
            Some(v) => v,
            None => Vec::new(),
        };
        let ghost old_kids = kids@;
        kids.push(*pid);
        proof {
            assert(kids@[kids@.len() - 1] == *pid);
            assert forall|k: u32| old_kids.contains(k) implies kids@.contains(k) by {
                let j = choose|j: int| 0 <= j < old_kids.len() && old_kids[j] == k;
                assert(kids@[j] == k);
            }
        }
        children.insert(*ppid, kids);
        proof {
            assert(entry == it.seq()[idx]);
            assert forall|i: int| 0 <= i < idx + 1 implies children@.contains_key(*(#[trigger] it.seq()[i]).1)
                && children@[*it.seq()[i].1]@.contains(*it.seq()[i].0) by {
                if i < idx && *it.seq()[i].1 == *ppid {
                    assert(before[*ppid]@.contains(*it.seq()[i].0));
                    assert(old_kids == before[*ppid]@);
                }
            }
        }
    }
    proof {
        let v = vstd::std_specs::hash::spec_hash_map_iter(parent).remaining();
        assert forall|c: u32, k: u32| #[trigger] is_child(parent@, k, c) implies children@.contains_key(c)
            && children@[c]@.contains(k) by {
            assert(parent@.contains_key(k));
            assert(v.contains((&k, &parent@[k])));
            let i = choose|i: int| 0 <= i < v.len() && v[i] == (&k, &parent@[k]);
            assert(*v[i].0 == k);
        }
    }
    children
}

/// The pids that may hold a descendant: the listed pids and `root`.
pub open spec fn pid_universe(parent: Map<u32, u32>, root: u32) -> Set<u32> {
    parent.dom().insert(root)
}

/// `root` and every process that descends from it through the parent links of
/// `parent` (pid to parent pid). Cycles in the links are harmless.
pub fn descendants_and_self(parent: &HashMap<u32, u32>, root: u32) -> (r: HashSet<u32>)
    ensures
        forall|p: u32| r@.contains(p) <==> descends_from(parent@, root, p),
{
    let children = children_of(parent);
    let ghost universe = pid_universe(parent@, root);
    proof {
        assert(parent@.dom().finite());
    }
    let mut result: HashSet<u32> = HashSet::new();
    result.insert(root);
    let mut stack: Vec<u32> = Vec::new();
    stack.push(root);
    proof {
        assert(parent_chain(parent@, root, root, 0));
        assert(stack@[0] == root);
    }
    loop
        invariant
            forall|c: u32, k: u32|
                (children@.contains_key(c) && children@[c]@.contains(k)) <==> #[trigger] is_child(parent@, k, c),
            universe == pid_universe(parent@, root),
            universe.finite(),
            result@.subset_of(universe),
            result@.finite(),
            result@.contains(root),
            forall|p: u32| #[trigger] result@.contains(p) ==> descends_from(parent@, root, p),
            forall|i: int| 0 <= i < stack.len() ==> result@.contains(#[trigger] stack@[i]),
            forall|q: u32, k: u32|
                result@.contains(q) && !stack@.contains(q) && #[trigger] is_child(parent@, k, q) ==> result@.contains(k),
        ensures
            stack@.len() == 0,
        decreases universe.len() - result@.len(), stack.len(),
    {
        proof {
            vstd::set_lib::lemma_len_subset(result@, universe);
        }
        let ghost old_stack = stack@;
        let cur = match stack.pop() {
            Some(c) => c,
            None => break,
        };
        let ghost popped = stack@;
        proof {
            assert(old_stack == popped.push(cur));
            assert(old_stack[old_stack.len() - 1] == cur);
            assert forall|q: u32| !popped.contains(q) && q != cur implies !old_stack.contains(q) by {
                if old_stack.contains(q) {
                    let i = choose|i: int| 0 <= i < old_stack.len() && old_stack[i] == q;
                    assert(popped[i] == q);
                }
            }
        }
        assert(result@.contains(cur));
        if let Some(kids) = children.get(&cur) {
            let ghost len_before = result@.len();
            let mut j: usize = 0;
            while j < kids.len()
                invariant
                    children@.contains_key(cur),
                    children@[cur] == *kids,
                    forall|c: u32, k: u32|
                        (children@.contains_key(c) && children@[c]@.contains(k)) <==> #[trigger] is_child(parent@, k, c),
                    universe == pid_universe(parent@, root),
                    universe.finite(),
                    result@.subset_of(universe),
                    result@.finite(),
                    result@.contains(root),
                    result@.contains(cur),
                    result@.len() >= len_before,
                    stack@.len() > popped.len() ==> result@.len() > len_before,
                    stack@.len() >= popped.len(),
                    forall|i: int| 0 <= i < popped.len() ==> stack@[i] == popped[i],
                    !popped.contains(cur) ==> !stack@.contains(cur),
                    j <= kids.len(),
                    forall|p: u32| #[trigger] result@.contains(p) ==> descends_from(parent@, root, p),
                    forall|i: int| 0 <= i < stack.len() ==> result@.contains(#[trigger] stack@[i]),
                    forall|i: int| 0 <= i < j ==> result@.contains(#[trigger] kids@[i]),
                    forall|q: u32, k: u32|
                        result@.contains(q) && !stack@.contains(q) && q != cur && #[trigger] is_child(parent@, k, q)
                            ==> result@.contains(k),
                decreases kids.len() - j,
            {
                let k = kids[j];
                assert(children@[cur]@.contains(k));
                assert(is_child(parent@, k, cur));
                let ghost stack_before = stack@;
                let ghost result_before = result@;
                if result.insert(k) {
                    proof {
                        let n = choose|n: nat| parent_chain(parent@, root, cur, n);
                        assert(parent_chain(parent@, root, k, n + 1));
                        assert(universe.contains(k));
                    }
                    stack.push(k);
                    proof {
                        assert(stack@[stack@.len() - 1] == k);
                        assert forall|q: u32, c: u32|
                            result@.contains(q) && !stack@.contains(q) && q != cur && #[trigger] is_child(parent@, c, q)
                            implies result@.contains(c) by {
                            if stack_before.contains(q) {
                                let i = choose|i: int| 0 <= i < stack_before.len() && stack_before[i] == q;
                                assert(stack@[i] == q);
                            }
                            assert(result_before.contains(q));
                        }
                    }
                }
                j += 1;
            }
            proof {
                assert forall|k: u32| #[trigger] is_child(parent@, k, cur) implies result@.contains(k) by {
                    assert(children@[cur]@.contains(k));
                }
                vstd::set_lib::lemma_len_subset(result@, universe);
            }
        } else {
            proof {
                assert forall|k: u32| #[trigger] is_child(parent@, k, cur) implies false by {
                    assert(children@.contains_key(cur));
                }
            }
        }
    }
    proof {
        assert forall|p: u32| descends_from(parent@, root, p) implies result@.contains(p) by {
            let n = choose|n: nat| parent_chain(parent@, root, p, n);
            lemma_closed_set_holds_descendants(parent@, root, result@, p, n);
        }
    }
    result
}

} // verus!
