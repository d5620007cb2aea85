//! The node graph and its loader.
//!
//! A program is a collection of bytecode nodes plus an adjacency relation
//! declared by a manifest: a JSON object mapping each node's name to the list
//! of its neighbors' names.  The loader parses the manifest, assigns each
//! entry the next index, loads one machine per entry from its bytecode blob,
//! and resolves neighbor names to indices; a neighbor name that is not itself
//! an entry is an error.  Reading the manifest and the blobs from disk is the
//! host's business: the functions here take their contents as values.

use std::collections::HashMap;

use vstd::prelude::*;

use crate::machine::ExecStatus;
use crate::machine::NodeMachine;
use crate::machine::fresh_state;
use crate::machine::runnable;
use crate::machine::step_spec;
use crate::machine::steps_to;
use crate::machine::float_value_pending;
use crate::machine::float_test_pending;
use crate::machine::StepResult;

verus! {

broadcast use vstd::std_specs::vec::axiom_spec_len, vstd::std_specs::hash::group_hash_axioms;

/// One manifest entry: a node's name and the names of its declared
/// neighbors, in order.
#[derive(Debug, PartialEq, Eq)]
pub struct ManifestEntry {
    /// The node's name; its bytecode lives in the file `<name>.k`.
    pub name: String,
    /// The declared neighbors, by name.
    pub neighbors: Vec<String>,
}

/// The node names of the entries are pairwise distinct.
pub open spec fn distinct_names(entries: Seq<ManifestEntry>) -> bool {
    forall|i: int, j: int|
        0 <= i < j < entries.len() ==> (#[trigger] entries[i].name)@ != (
        #[trigger] entries[j].name)@
}

/// The error of a manifest text that is not a JSON object mapping names to
/// arrays of names.
#[derive(Clone, Copy, Debug, PartialEq, Eq, Structural)]
pub enum ManifestError {
    /// The text does not parse as a manifest.
    Invalid,
}

/// An error of assembling a virtual machine from manifest entries and
/// bytecode blobs.
#[derive(Debug, PartialEq, Eq)]
pub enum LoadError {
    /// The number of blobs does not match the number of entries.
    CountMismatch,
    /// The named neighbor is not an entry of the manifest.
    UnknownNeighbor(String),
}

#[verifier::external_type_specification]
#[verifier::external_body]
pub struct ExSerdeJsonError(serde_json::Error);

/// Whether a text parses as a manifest: a JSON object mapping strings to
/// arrays of strings.
pub uninterp spec fn manifest_ok(text: Seq<char>) -> bool;

/// The mapping a parseable manifest text denotes, from node name to the
/// sequence of its neighbors' names.
pub uninterp spec fn manifest_map(text: Seq<char>) -> Map<Seq<char>, Seq<Seq<char>>>;

/// Relies on `serde_json::from_str`: whether a text parses as a JSON object
/// of string keys and string-array values, and which mapping it denotes, are
/// functions of the text alone, here named `manifest_ok` and `manifest_map`;
/// parsing errs exactly on the texts that are no such object.  The entries
/// carry that mapping entry for entry, with pairwise-distinct names; their
/// order follows the iteration order of a std `HashMap`, which differs run
/// to run, so no clause names it.
#[verifier::external_body]
fn parse_manifest_json(text: &str) -> (r: Result<Vec<ManifestEntry>, serde_json::Error>)
    ensures
        (r is Ok) <==> manifest_ok(text@),
        r matches Ok(entries) ==> distinct_names(entries@),
        r matches Ok(entries) ==> (forall|i: int|
            0 <= i < entries@.len() ==> #[trigger] manifest_map(text@).contains_key(
                entries@[i].name@,
            )),
        r matches Ok(entries) ==> (forall|i: int|
            0 <= i < entries@.len() ==> (#[trigger] entries@[i]).neighbors@.map_values(
                |s: String| s@,
            ) == manifest_map(text@)[entries@[i].name@]),
        r matches Ok(entries) ==> (forall|k: Seq<char>|
            #[trigger] manifest_map(text@).contains_key(k) ==> exists|i: int|
                0 <= i < entries@.len() && (#[trigger] entries@[i]).name@ == k),
{
    match serde_json::from_str::<HashMap<String, Vec<String>>>(text) {
        Ok(map) => Ok(
            map.into_iter().map(
                |entry: (String, Vec<String>)|
                    ManifestEntry { name: entry.0, neighbors: entry.1 },
            ).collect(),
        ),
        Err(e) => Err(e),
    }
}

/// Parses a manifest: a JSON object mapping node names to arrays of neighbor
/// names.  It succeeds exactly on the texts that are such an object, and the
/// entries then carry the text's mapping entry for entry, under
/// pairwise-distinct names; their order is the parser's (see
/// `parse_manifest_json`).
pub fn parse_manifest(text: &str) -> (r: Result<Vec<ManifestEntry>, ManifestError>)
    ensures
        (r is Ok) <==> manifest_ok(text@),
        r matches Ok(entries) ==> distinct_names(entries@),
        r matches Ok(entries) ==> (forall|i: int|
            0 <= i < entries@.len() ==> #[trigger] manifest_map(text@).contains_key(
                entries@[i].name@,
            )),
        r matches Ok(entries) ==> (forall|i: int|
            0 <= i < entries@.len() ==> (#[trigger] entries@[i]).neighbors@.map_values(
                |s: String| s@,
            ) == manifest_map(text@)[entries@[i].name@]),
        r matches Ok(entries) ==> (forall|k: Seq<char>|
            #[trigger] manifest_map(text@).contains_key(k) ==> exists|i: int|
                0 <= i < entries@.len() && (#[trigger] entries@[i]).name@ == k),
{
    match parse_manifest_json(text) {
        Ok(entries) => {
            proof {
                assert forall|k: Seq<char>| #[trigger] manifest_map(text@).contains_key(
                    k,
                ) implies exists|i: int|
                    0 <= i < entries@.len() && (#[trigger] entries@[i]).name@ == k by {
                    let i0 = choose|i: int|
                        0 <= i < entries@.len() && (#[trigger] entries@[i]).name@ == k;
                    assert(0 <= i0 < entries@.len() && entries@[i0].name@ == k);
                }
            }
            Ok(entries)
        },
        Err(_) => Err(ManifestError::Invalid),
    }
}

/// The least index whose entry bears the given name, or -1 when none does.
pub open spec fn name_index(entries: Seq<ManifestEntry>, name: Seq<char>) -> int
    decreases entries.len(),
{
    if entries.len() == 0 {
        -1
    } else if entries[0].name@ == name {
        0
    } else {
        let rest = name_index(entries.drop_first(), name);
        if rest == -1 {
            -1
        } else {
            rest + 1
        }
    }
}

/// Every neighbor name of every entry occurs among the entry names.
pub open spec fn all_neighbors_known(entries: Seq<ManifestEntry>) -> bool {
    forall|i: int, j: int|
        0 <= i < entries.len() && 0 <= j < entries[i].neighbors@.len() ==> name_index(
            entries,
            (#[trigger] entries[i].neighbors@[j])@,
        ) >= 0
}

/// `name_index` finds the least matching index, and -1 means no entry
/// matches.
pub proof fn lemma_name_index(entries: Seq<ManifestEntry>, name: Seq<char>)
    ensures
        name_index(entries, name) == -1 ==> (forall|i: int|
            0 <= i < entries.len() ==> (#[trigger] entries[i].name)@ != name),
        name_index(entries, name) != -1 ==> 0 <= name_index(entries, name) < entries.len(),
        name_index(entries, name) != -1 ==> entries[name_index(entries, name)].name@ == name,
        name_index(entries, name) != -1 ==> (forall|i: int|
            0 <= i < name_index(entries, name) ==> (#[trigger] entries[i].name)@ != name),
    decreases entries.len(),
{
    if entries.len() > 0 && entries[0].name@ != name {
        lemma_name_index(entries.drop_first(), name);
        assert forall|i: int| 1 <= i < entries.len() implies entries.drop_first()[i - 1]
            == entries[i] by {}
    }
}

/// The least index whose entry bears the given name.
fn find_name(entries: &Vec<ManifestEntry>, name: &String) -> (r: Option<usize>)
    ensures
        match r {
            Some(k) => k as int == name_index(entries@, name@),
            None => name_index(entries@, name@) == -1,
        },
{
    let n = entries.len();
    let mut i: usize = 0;
    while i < n
        invariant
            i <= n,
            n == entries@.len(),
            forall|m: int| 0 <= m < i ==> (#[trigger] entries@[m].name)@ != name@,
        decreases n - i,
    {
        if entries[i].name == *name {
            proof {
                lemma_name_index(entries@, name@);
            }
            return Some(i);
        }
        i = i + 1;
    }
    proof {
        lemma_name_index(entries@, name@);
    }
    None
}

/// The collection of nodes plus the declared adjacency relation.  A node's
/// index is its identity; the entry node is index 0.
#[derive(Debug)]
pub struct NodeGraph {
    /// The machines, ordered by index.
    pub nodes: Vec<NodeMachine>,
    /// For each node index, the indices of its declared neighbors, in the
    /// order the manifest gave them.
    pub adj_list: HashMap<usize, Vec<usize>>,
}

impl NodeGraph {
    /// A graph from its parts; nothing is reordered.
    pub fn from(nodes: Vec<NodeMachine>, adj_list: HashMap<usize, Vec<usize>>) -> (g: NodeGraph)
        ensures
            g.nodes == nodes,
            g.adj_list == adj_list,
    {
        NodeGraph { nodes, adj_list }
    }
}

/// The loader and driver: a node graph whose entry node is run.
#[derive(Debug)]
pub struct VirtualMachine {
    /// The loaded graph.
    pub graph: NodeGraph,
}

impl VirtualMachine {
    /// Assembles a virtual machine from manifest entries and one bytecode
    /// blob per entry, in the same order.  Each entry becomes the machine of
    /// its index, and each neighbor name resolves to the least entry index
    /// bearing it; a name no entry bears is the `UnknownNeighbor` error.
    #[verifier::loop_isolation(false)]
    pub fn new(entries: Vec<ManifestEntry>, blobs: Vec<Vec<u8>>) -> (r: Result<
        VirtualMachine,
        LoadError,
    >)
        ensures
            match r {
                Ok(vm) => {
                    &&& entries@.len() == blobs@.len()
                    &&& all_neighbors_known(entries@)
                    &&& vm.graph.nodes@.len() == entries@.len()
                    &&& forall|i: int|
                        0 <= i < entries@.len() ==> (#[trigger] vm.graph.nodes@[i])@ == fresh_state(
                            blobs@[i]@,
                        )
                    &&& forall|i: int|
                        0 <= i < entries@.len() ==> #[trigger] vm.graph.adj_list@.contains_key(i as usize)
                    &&& forall|k: usize| #[trigger] vm.graph.adj_list@.contains_key(k) ==> (k as int) < entries@.len()
                    &&& forall|i: int|
                        0 <= i < entries@.len() ==> (#[trigger] vm.graph.adj_list@[i as usize])@.len()
                            == entries@[i].neighbors@.len()
                    &&& forall|i: int, j: int|
                        0 <= i < entries@.len() && 0 <= j < entries@[i].neighbors@.len() ==> (
                        #[trigger] vm.graph.adj_list@[i as usize]@[j]) as int == name_index(
                            entries@,
                            entries@[i].neighbors@[j]@,
                        )
                },
                Err(LoadError::CountMismatch) => entries@.len() != blobs@.len(),
                Err(LoadError::UnknownNeighbor(nm)) => {
                    &&& entries@.len() == blobs@.len()
                    &&& name_index(entries@, nm@) == -1
                    &&& exists|i: int, j: int|
                        0 <= i < entries@.len() && 0 <= j < entries@[i].neighbors@.len() && (
                        #[trigger] entries@[i].neighbors@[j])@ == nm@
                },
            },
    {
        if entries.len() != blobs.len() {
            return Err(LoadError::CountMismatch);
        }
        let n = entries.len();
        let mut rest = blobs;
        let mut nodes: Vec<NodeMachine> = Vec::new();
        let mut i: usize = 0;
        while i < n
            invariant
                i <= n,
                n == entries@.len(),
                n == blobs@.len(),
                rest@ =~= blobs@.subrange(i as int, n as int),
                nodes@.len() == i,
                forall|m: int| 0 <= m < i ==> (#[trigger] nodes@[m])@ == fresh_state(blobs@[m]@),
            decreases n - i,
        {
            let blob = rest.remove(0);
            nodes.push(NodeMachine::new(blob));
            i = i + 1;
            proof {
                assert(rest@ =~= blobs@.subrange(i as int, n as int));
            }
        }
        let mut adj: HashMap<usize, Vec<usize>> = HashMap::new();
        let mut k: usize = 0;
        while k < n
            invariant
                k <= n,
                n == entries@.len(),
                forall|m: int| 0 <= m < k ==> #[trigger] adj@.contains_key(m as usize),
                forall|m: usize| #[trigger] adj@.contains_key(m) ==> (m as int) < k,
                forall|m: int|
                    0 <= m < k ==> (#[trigger] adj@[m as usize])@.len()
                        == entries@[m].neighbors@.len(),
                forall|m: int, j: int|
                    0 <= m < k && 0 <= j < entries@[m].neighbors@.len() ==> (
                    #[trigger] adj@[m as usize]@[j]) as int == name_index(
                        entries@,
                        entries@[m].neighbors@[j]@,
                    ),
            decreases n - k,
        {
            let count = entries[k].neighbors.len();
            let mut neigh: Vec<usize> = Vec::new();
            let mut j: usize = 0;
            while j < count
                invariant
                    j <= count,
                    k < n,
                    n == entries@.len(),
                    count == entries@[k as int].neighbors@.len(),
                    neigh@.len() == j,
                    forall|q: int|
                        0 <= q < j ==> (#[trigger] neigh@[q]) as int == name_index(
                            entries@,
                            entries@[k as int].neighbors@[q]@,
                        ),
                decreases count - j,
            {
                let found = find_name(&entries, &entries[k].neighbors[j]);
                match found {
                    Some(idx) => {
                        neigh.push(idx);
                    },
                    None => {
                        let nm = entries[k].neighbors[j].clone();
                        proof {
                            assert(0 <= k < entries@.len() && 0 <= j
                                < entries@[k as int].neighbors@.len() && (entries@[
                            k as int].neighbors@[j as int])@ == nm@);
                        }
                        return Err(LoadError::UnknownNeighbor(nm));
                    },
                }
                j = j + 1;
            }
            adj.insert(k, neigh);
            k = k + 1;
        }
        proof {
            assert forall|i2: int, j2: int|
                0 <= i2 < entries@.len() && 0 <= j2 < entries@[i2].neighbors@.len() implies name_index(
                entries@,
                (#[trigger] entries@[i2].neighbors@[j2])@,
            ) >= 0 by {
                assert(adj@[i2 as usize]@[j2] as int == name_index(
                    entries@,
                    entries@[i2].neighbors@[j2]@,
                ));
            }
        }
        Ok(VirtualMachine { graph: NodeGraph::from(nodes, adj) })
    }

    /// Runs the entry node, index 0, for up to `fuel` instructions; the
    /// other nodes and the adjacency are untouched.  The outcomes, and the
    /// pause on float instructions, are those of [`NodeMachine::execute`] on
    /// the entry node.
    pub fn execute(&mut self, fuel: u64) -> (r: ExecStatus)
        requires
            old(self).graph.nodes@.len() > 0,
        ensures
            final(self).graph.nodes@.len() == old(self).graph.nodes@.len(),
            final(self).graph.adj_list == old(self).graph.adj_list,
            forall|i: int|
                1 <= i < old(self).graph.nodes@.len() ==> final(self).graph.nodes@[i] == old(
                    self,
                ).graph.nodes@[i],
            exists|n: nat|
                n <= fuel && #[trigger] steps_to(
                    old(self).graph.nodes@[0]@,
                    final(self).graph.nodes@[0]@,
                    n,
                ),
            final(self).graph.nodes@[0]@.code == old(self).graph.nodes@[0]@.code,
            match r {
                ExecStatus::Completed => !runnable(final(self).graph.nodes@[0]@),
                ExecStatus::Running => runnable(final(self).graph.nodes@[0]@) && steps_to(
                    old(self).graph.nodes@[0]@,
                    final(self).graph.nodes@[0]@,
                    fuel as nat,
                ),
                ExecStatus::FloatValue { op, a, b } => float_value_pending(
                    final(self).graph.nodes@[0]@,
                ) && step_spec(final(self).graph.nodes@[0]@).1 == (StepResult::FloatValue {
                    op,
                    a,
                    b,
                }),
                ExecStatus::FloatTest { op, a, b } => float_test_pending(
                    final(self).graph.nodes@[0]@,
                ) && step_spec(final(self).graph.nodes@[0]@).1 == (StepResult::FloatTest {
                    op,
                    a,
                    b,
                }),
                ExecStatus::UnknownOpcode(op) => runnable(final(self).graph.nodes@[0]@)
                    && step_spec(final(self).graph.nodes@[0]@).1 == StepResult::UnknownOpcode(op),
                ExecStatus::Fault(f) => runnable(final(self).graph.nodes@[0]@) && step_spec(
                    final(self).graph.nodes@[0]@,
                ).1 == StepResult::Fault(f),
            },
    {
        let mut node = self.graph.nodes.remove(0);
        let r = node.execute(fuel);
        self.graph.nodes.insert(0, node);
        r
    }
}

} // verus!
