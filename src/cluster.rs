//! Cluster topology: which node owns which stream.
use vstd::prelude::*;
use vstd::utf8::encode_utf8;

verus! {

/// Lexicographic order on byte strings.
pub open spec fn bytes_le(a: Seq<u8>, b: Seq<u8>) -> bool
    decreases a.len(),
{
    if a.len() == 0 {
        true
    } else if b.len() == 0 {
        false
    } else if a[0] != b[0] {
        a[0] < b[0]
    } else {
        bytes_le(a.drop_first(), b.drop_first())
    }
}

/// The order of texts: lexicographic on their UTF-8 bytes.
pub open spec fn text_le(a: Seq<char>, b: Seq<char>) -> bool {
    bytes_le(encode_utf8(a), encode_utf8(b))
}

/// Whether a list of texts is in ascending order.
pub open spec fn texts_sorted(s: Seq<Seq<char>>) -> bool {
    forall|i: int, j: int| 0 <= i < j < s.len() ==> text_le(#[trigger] s[i], #[trigger] s[j])
}

/// The mathematical value of a list of strings.
pub open spec fn texts_view(v: Seq<String>) -> Seq<Seq<char>> {
    v.map_values(|s: String| s@)
}

/// Relies on `<[String]>::sort`: the same strings, in ascending order of `Ord`
/// on `str`, which compares the UTF-8 bytes lexicographically.
#[verifier::external_body]
fn sort_texts(v: Vec<String>) -> (r: Vec<String>)
    ensures
        texts_view(r@).to_multiset() == texts_view(v@).to_multiset(),
        texts_sorted(texts_view(r@)),
{
    let mut v = v;
    v.sort();
    v
}

/// The stable 64-bit hash of a text, as every node computes it.
pub uninterp spec fn stream_hash(s: Seq<char>) -> u64;

/// Relies on std's `DefaultHasher::new()` fed the `str` through `Hash`: its keys
/// are fixed, so the result depends on the text alone.
#[verifier::external_body]
pub fn stable_hash(s: &str) -> (r: u64)
    ensures
        r == stream_hash(s@),
{
    let mut h = std::collections::hash_map::DefaultHasher::new();
    std::hash::Hash::hash(s, &mut h);
    std::hash::Hasher::finish(&h)
}

proof fn lemma_bytes_le_antisymmetric(a: Seq<u8>, b: Seq<u8>)
    requires
        bytes_le(a, b),
        bytes_le(b, a),
    ensures
        a == b,
    decreases a.len(),
{
    if a.len() == 0 {
        if b.len() != 0 {
            assert(!bytes_le(b, a));
        }
        assert(a =~= b);
    } else {
        if b.len() == 0 {
            assert(!bytes_le(a, b));
        }
        if a[0] == b[0] {
            lemma_bytes_le_antisymmetric(a.drop_first(), b.drop_first());
            assert(a =~= seq![a[0]] + a.drop_first());
            assert(b =~= seq![b[0]] + b.drop_first());
        }
    }
}

proof fn lemma_text_le_antisymmetric(a: Seq<char>, b: Seq<char>)
    requires
        text_le(a, b),
        text_le(b, a),
    ensures
        a == b,
{
    lemma_bytes_le_antisymmetric(encode_utf8(a), encode_utf8(b));
    vstd::utf8::encode_utf8_decode_utf8(a);
    vstd::utf8::encode_utf8_decode_utf8(b);
}

/// Two ascending lists of the same texts are the same list.
pub proof fn lemma_sorted_unique(a: Seq<Seq<char>>, b: Seq<Seq<char>>)
    requires
        texts_sorted(a),
        texts_sorted(b),
        a.to_multiset() == b.to_multiset(),
    ensures
        a == b,
    decreases a.len(),
{
    broadcast use vstd::seq_lib::group_to_multiset_ensures;

    if a.len() == 0 {
        assert(b.to_multiset().len() == 0);
        assert(a =~= b);
    } else {
        assert(a.to_multiset().len() == a.len());
        assert(b.to_multiset().len() == b.len());
        assert(a.contains(a[0]));
        assert(b.to_multiset().count(a[0]) > 0);
        assert(b.contains(a[0]));
        let k = choose|k: int| 0 <= k < b.len() && b[k] == a[0];
        assert(b.contains(b[0]));
        assert(a.to_multiset().count(b[0]) > 0);
        assert(a.contains(b[0]));
        let m = choose|m: int| 0 <= m < a.len() && a[m] == b[0];
        if a[0] != b[0] {
            assert(k != 0 && m != 0);
            assert(text_le(b[0], b[k]));
            assert(text_le(a[0], a[m]));
            lemma_text_le_antisymmetric(a[0], b[0]);
        }
        assert(a.remove(0) =~= a.drop_first());
        assert(b.remove(0) =~= b.drop_first());
        assert(a.drop_first().to_multiset() == a.to_multiset().remove(a[0]));
        assert(b.drop_first().to_multiset() == b.to_multiset().remove(b[0]));
        assert forall|i: int, j: int|
            0 <= i < j < a.drop_first().len() implies text_le(
            #[trigger] a.drop_first()[i],
            #[trigger] a.drop_first()[j],
        ) by {
            assert(text_le(a[i + 1], a[j + 1]));
        }
        assert forall|i: int, j: int|
            0 <= i < j < b.drop_first().len() implies text_le(
            #[trigger] b.drop_first()[i],
            #[trigger] b.drop_first()[j],
        ) by {
            assert(text_le(b[i + 1], b[j + 1]));
        }
        lemma_sorted_unique(a.drop_first(), b.drop_first());
        assert(a =~= seq![a[0]] + a.drop_first());
        assert(b =~= seq![b[0]] + b.drop_first());
    }
}

/// The owner of a stream: a node address and the epoch of the topology that
/// named it.
#[derive(Debug, Clone, PartialEq)]
pub struct ChainOwner {
    pub node_addr: String,
    pub epoch: u64,
}

/// The nodes of the cluster in ascending order, and the topology's epoch.
#[derive(Clone)]
pub struct ClusterTopology {
    nodes: Vec<String>,
    epoch: u64,
}

/// The position of the owner of a stream among `n` sorted nodes.
pub open spec fn owner_index(stream: Seq<char>, n: nat) -> int {
    (stream_hash(stream) as int) % (n as int)
}

impl ClusterTopology {
    /// The sorted node addresses.
    pub closed spec fn nodes_view(&self) -> Seq<Seq<char>> {
        texts_view(self.nodes@)
    }

    /// The topology's epoch.
    pub closed spec fn epoch_view(&self) -> u64 {
        self.epoch
    }

    /// The invariant: the nodes are in ascending order.
    pub open spec fn wf(&self) -> bool {
        texts_sorted(self.nodes_view())
    }

    /// A topology over the given nodes, which are put in ascending order so that
    /// every node that is given the same set derives the same mapping.
    pub fn new(nodes: Vec<String>, epoch: u64) -> (r: ClusterTopology)
        ensures
            r.wf(),
            r.nodes_view().to_multiset() == texts_view(nodes@).to_multiset(),
            r.epoch_view() == epoch,
    {
        ClusterTopology { nodes: sort_texts(nodes), epoch }
    }

    /// The owner of a stream: the node at position `hash(stream) mod n` among the
    /// sorted nodes, with this topology's epoch.
    pub fn get_owner(&self, stream_id: &str) -> (r: ChainOwner)
        requires
            self.nodes_view().len() > 0,
        ensures
            r.node_addr@ == self.nodes_view()[owner_index(stream_id@, self.nodes_view().len())],
            r.epoch == self.epoch_view(),
    {
        let hash = stable_hash(stream_id);
        let n = self.nodes.len();
        let idx = (hash % (n as u64)) as usize;
        ChainOwner { node_addr: self.nodes[idx].clone(), epoch: self.epoch }
    }

    /// The sorted node addresses.
    pub fn get_all_nodes(&self) -> (r: &[String])
        ensures
            texts_view(r@) == self.nodes_view(),
    {
        self.nodes.as_slice()
    }

    /// The topology's epoch.
    pub fn epoch(&self) -> (r: u64)
        ensures
            r == self.epoch_view(),
    {
        self.epoch
    }
}

/// Ownership is deterministic: two topologies built from the same nodes, in any
/// order, with the same epoch, name the same owner for every stream.
pub proof fn lemma_owner_deterministic(
    t1: ClusterTopology,
    t2: ClusterTopology,
    stream: Seq<char>,
)
    requires
        t1.wf(),
        t2.wf(),
        t1.nodes_view().to_multiset() == t2.nodes_view().to_multiset(),
        t1.epoch_view() == t2.epoch_view(),
        t1.nodes_view().len() > 0,
    ensures
        t1.nodes_view() == t2.nodes_view(),
        t1.nodes_view()[owner_index(stream, t1.nodes_view().len())]
            == t2.nodes_view()[owner_index(stream, t2.nodes_view().len())],
{
    lemma_sorted_unique(t1.nodes_view(), t2.nodes_view());
}

} // verus!
