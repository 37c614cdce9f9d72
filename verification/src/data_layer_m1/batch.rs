//! Deterministic merkle batch assembly and inclusion-proof generation.
//!
//! Leaves are ordered by `(leaf_index, message_id)` (ties keep their input
//! order), validated, hashed, and folded pairwise level by level; a level
//! with an odd count pairs its last node with itself.
use vstd::prelude::*;
use crate::data_layer_m1::models::{
    batch_digest, batch_hash, content_hash_valid, leaf_digest, leaf_hash, node_digest, node_hash,
    DataLayerM1Error, DataLayerM1MerkleInclusionProof, DataLayerM1MerkleLeaf,
    DataLayerM1MerkleProofStep, DataLayerM1ProofSiblingSide,
};
use crate::sorting::{sort_triples, triple_leq, triples_view};
use crate::text::{is_blank, is_blank_seq, str_eq, str_views, trim_chars};

verus! {

/// A leaf as values: (message id, leaf index, content hash).
pub type LeafModel = (Seq<char>, u32, Seq<char>);

pub open spec fn leaf_view(l: DataLayerM1MerkleLeaf) -> LeafModel {
    (l.message_id@, l.leaf_index, l.content_hash@)
}

pub open spec fn leaves_view(v: Seq<DataLayerM1MerkleLeaf>) -> Seq<LeafModel> {
    v.map_values(|l: DataLayerM1MerkleLeaf| leaf_view(l))
}

/// Sort keys of the leaves: (index, id, input position).
pub open spec fn leaf_keys(ls: Seq<LeafModel>) -> Seq<(u64, Seq<char>, u64)> {
    Seq::new(ls.len(), |i: int| (ls[i].1 as u64, ls[i].0, i as u64))
}

/// The leaves ordered by index, then id; equal keys keep their input order.
pub open spec fn sorted_leaves(ls: Seq<LeafModel>) -> Seq<LeafModel> {
    leaf_keys(ls).sort_by(triple_leq()).map_values(|k: (u64, Seq<char>, u64)| ls[k.2 as int])
}

/// Why a leaf list is refused.
pub enum LeafFault {
    EmptyMessageId,
    InvalidContentHash(Seq<char>),
    DuplicateLeafIndex(u32),
    DuplicateMessageId(Seq<char>),
    NonContiguous(u32, u32),
}

/// The check of the leaf at position `i`, given the leaves before it.
pub open spec fn leaf_check(s: Seq<LeafModel>, i: int) -> Option<LeafFault> {
    let l = s[i];
    if is_blank_seq(l.0) {
        Some(LeafFault::EmptyMessageId)
    } else if !content_hash_valid(l.2) {
        Some(LeafFault::InvalidContentHash(l.2))
    } else if exists|j: int| 0 <= j < i && s[j].1 == l.1 {
        Some(LeafFault::DuplicateLeafIndex(l.1))
    } else if exists|j: int| 0 <= j < i && s[j].0 == l.0 {
        Some(LeafFault::DuplicateMessageId(l.0))
    } else if l.1 != i as u32 {
        Some(LeafFault::NonContiguous(i as u32, l.1))
    } else {
        None
    }
}

/// The first failing check among the first `n` leaves.
pub open spec fn leaves_fault(s: Seq<LeafModel>, n: int) -> Option<LeafFault>
    decreases n,
{
    if n <= 0 {
        None
    } else if leaves_fault(s, n - 1) is Some {
        leaves_fault(s, n - 1)
    } else {
        leaf_check(s, n - 1)
    }
}

pub proof fn lemma_leaves_fault_persists(s: Seq<LeafModel>, a: int, b: int)
    requires
        0 <= a <= b,
        leaves_fault(s, a) is Some,
    ensures
        leaves_fault(s, b) == leaves_fault(s, a),
    decreases b - a,
{
    if b > a {
        lemma_leaves_fault_persists(s, a, b - 1);
    }
}

pub open spec fn reports_leaf_fault(e: DataLayerM1Error, f: LeafFault) -> bool {
    match f {
        LeafFault::EmptyMessageId => e matches DataLayerM1Error::EmptyField(n) && n@ == "message_id"@,
        LeafFault::InvalidContentHash(h) => e matches DataLayerM1Error::InvalidContentHash(v)
            && v@ == h,
        LeafFault::DuplicateLeafIndex(i) => e == DataLayerM1Error::DuplicateLeafIndex {
            leaf_index: i,
        },
        LeafFault::DuplicateMessageId(m) => e matches DataLayerM1Error::DuplicateMessageId(v)
            && v@ == m,
        LeafFault::NonContiguous(x, y) => e == DataLayerM1Error::NonContiguousLeafIndexes {
            expected: x,
            found: y,
        },
    }
}

/// Leaf digests.
pub open spec fn level_zero(s: Seq<LeafModel>) -> Seq<Seq<char>> {
    s.map_values(|l: LeafModel| leaf_hash(l.0, l.1, l.2))
}

/// The level above `cur`, built at level number `k`.
pub open spec fn next_level(k: nat, cur: Seq<Seq<char>>) -> Seq<Seq<char>> {
    Seq::new(
        ((cur.len() + 1) / 2) as nat,
        |j: int|
            node_hash(k, cur[2 * j], if 2 * j + 1 < cur.len() { cur[2 * j + 1] } else { cur[2 * j] }),
    )
}

/// Levels from `cur` (numbered `k`) up to a level of at most one node.
pub open spec fn levels_from(k: nat, cur: Seq<Seq<char>>) -> Seq<Seq<Seq<char>>>
    decreases cur.len(),
{
    if cur.len() <= 1 {
        seq![cur]
    } else {
        seq![cur] + levels_from(k + 1, next_level(k, cur))
    }
}

/// Two to the power `m`.
pub open spec fn two_pow(m: nat) -> nat
    decreases m,
{
    if m == 0 {
        1
    } else {
        2 * two_pow((m - 1) as nat)
    }
}

/// A level of at most `2^m` nodes has at most `m + 1` levels above and including it.
proof fn lemma_levels_len_bound(k: nat, cur: Seq<Seq<char>>, m: nat)
    requires
        cur.len() <= two_pow(m),
    ensures
        levels_from(k, cur).len() <= m + 1,
    decreases cur.len(),
{
    if cur.len() > 1 {
        let m1 = (m - 1) as nat;
        assert(m > 0);
        assert(next_level(k, cur).len() <= two_pow(m1));
        lemma_levels_len_bound(k + 1, next_level(k, cur), m1);
    }
}

proof fn lemma_two_pow_64()
    ensures
        two_pow(64) == 0x1_0000_0000_0000_0000,
{
    reveal_with_fuel(two_pow, 65);
}

/// A proof path from level `k` takes one step per level below the top.
proof fn lemma_steps_len(levels: Seq<Seq<Seq<char>>>, k: int, node: int)
    requires
        0 <= k < levels.len(),
    ensures
        steps_from(levels, k, node).len() == levels.len() - 1 - k,
    decreases levels.len() - k,
{
    if k + 1 < levels.len() {
        lemma_steps_len(levels, k + 1, node / 2);
    }
}

/// All levels of the tree over the (ordered) leaves, leaves first.
pub open spec fn tree_levels(s: Seq<LeafModel>) -> Seq<Seq<Seq<char>>> {
    levels_from(0, level_zero(s))
}

/// The side and hash of the sibling of node `node` on `level`.
pub open spec fn sibling(level: Seq<Seq<char>>, node: int) -> (Seq<char>, DataLayerM1ProofSiblingSide) {
    if node % 2 == 0 {
        (
            if node + 1 < level.len() {
                level[node + 1]
            } else {
                level[node]
            },
            DataLayerM1ProofSiblingSide::Right,
        )
    } else {
        (level[node - 1], DataLayerM1ProofSiblingSide::Left)
    }
}

/// Proof steps from level `k` for node `node`, up to (not including) the root level.
pub open spec fn steps_from(levels: Seq<Seq<Seq<char>>>, k: int, node: int) -> Seq<
    (Seq<char>, DataLayerM1ProofSiblingSide),
>
    decreases levels.len() - k,
{
    if k < 0 || k + 1 >= levels.len() {
        Seq::empty()
    } else {
        seq![sibling(levels[k], node)] + steps_from(levels, k + 1, node / 2)
    }
}

/// Levels are well formed: each is the level above the previous one, only
/// the last has at most one node, and none is empty.
pub open spec fn levels_well_formed(levels: Seq<Seq<Seq<char>>>, k0: nat) -> bool {
    &&& levels.len() >= 1
    &&& forall|i: int| 0 <= i < levels.len() ==> #[trigger] levels[i].len() >= 1
    &&& forall|i: int|
        0 <= i < levels.len() - 1 ==> #[trigger] levels[i + 1] == next_level((k0 + i) as nat, levels[i])
            && levels[i].len() > 1
    &&& levels.last().len() == 1
}

pub proof fn lemma_levels_from_well_formed(k: nat, cur: Seq<Seq<char>>)
    requires
        cur.len() >= 1,
    ensures
        levels_well_formed(levels_from(k, cur), k),
        levels_from(k, cur)[0] == cur,
    decreases cur.len(),
{
    if cur.len() > 1 {
        let nx = next_level(k, cur);
        lemma_levels_from_well_formed(k + 1, nx);
        let rest = levels_from(k + 1, nx);
        let all = levels_from(k, cur);
        assert(all == seq![cur] + rest);
        assert forall|i: int| 0 <= i < all.len() implies #[trigger] all[i].len() >= 1 by {
            if i > 0 {
                assert(all[i] == rest[i - 1]);
            }
        }
        assert forall|i: int| 0 <= i < all.len() - 1 implies #[trigger] all[i + 1] == next_level(
            (k + i) as nat,
            all[i],
        ) && all[i].len() > 1 by {
            if i > 0 {
                assert(all[i] == rest[i - 1]);
                assert(all[i + 1] == rest[i]);
                assert(rest[(i - 1) + 1] == next_level((k + 1 + (i - 1)) as nat, rest[i - 1]));
            }
        }
        assert(all.last() == rest.last());
    }
}

/// The tree's merkle root.
pub open spec fn root_of(s: Seq<LeafModel>) -> Seq<char> {
    tree_levels(s).last()[0]
}

/// Views of the levels.
pub open spec fn levels_view(v: Seq<Vec<String>>) -> Seq<Seq<Seq<char>>> {
    v.map_values(|l: Vec<String>| str_views(l@))
}

/// An inclusion proof as values.
pub struct ProofModel {
    pub batch_id: Seq<char>,
    pub merkle_root: Seq<char>,
    pub message_id: Seq<char>,
    pub leaf_index: u32,
    pub content_hash: Seq<char>,
    pub leaf_hash: Seq<char>,
    pub steps: Seq<(Seq<char>, DataLayerM1ProofSiblingSide)>,
}

pub open spec fn proof_view(p: DataLayerM1MerkleInclusionProof) -> ProofModel {
    ProofModel {
        batch_id: p.batch_id@,
        merkle_root: p.merkle_root@,
        message_id: p.message_id@,
        leaf_index: p.leaf_index,
        content_hash: p.content_hash@,
        leaf_hash: p.leaf_hash@,
        steps: p.steps@.map_values(
            |st: DataLayerM1MerkleProofStep| (st.sibling_hash@, st.sibling_side),
        ),
    }
}

/// The proof built for the leaf at position `p`.
pub open spec fn built_proof(
    batch_id: Seq<char>,
    merkle_root: Seq<char>,
    s: Seq<LeafModel>,
    p: int,
) -> ProofModel {
    ProofModel {
        batch_id,
        merkle_root,
        message_id: s[p].0,
        leaf_index: s[p].1,
        content_hash: s[p].2,
        leaf_hash: tree_levels(s)[0][p],
        steps: steps_from(tree_levels(s), 0, p),
    }
}

/// Leaves and levels of an assembled batch; the levels are the tree over the leaves.
#[derive(Debug, PartialEq, Eq)]
struct MerkleTree {
    leaves: Vec<DataLayerM1MerkleLeaf>,
    levels: Vec<Vec<String>>,
}

impl MerkleTree {
    #[verifier::type_invariant]
    spec fn inv(&self) -> bool {
        &&& self.leaves@.len() >= 1
        &&& levels_view(self.levels@) == tree_levels(leaves_view(self.leaves@))
    }
}

/// An assembled merkle batch.
#[derive(Debug, PartialEq, Eq)]
pub struct DataLayerM1MerkleBatch {
    pub batch_id: String,
    pub merkle_root: String,
    pub message_count: usize,
    pub first_message_id: String,
    pub last_message_id: String,
    pub tree_height: u16,
    tree: MerkleTree,
}

fn copy_leaf(l: &DataLayerM1MerkleLeaf) -> (r: DataLayerM1MerkleLeaf)
    ensures
        r == *l,
{
    DataLayerM1MerkleLeaf {
        message_id: l.message_id.clone(),
        leaf_index: l.leaf_index,
        content_hash: l.content_hash.clone(),
    }
}

/// The leaves in `(leaf_index, message_id)` order, equal keys in input order.
fn order_leaves(leaves: &Vec<DataLayerM1MerkleLeaf>) -> (r: Vec<DataLayerM1MerkleLeaf>)
    ensures
        leaves_view(r@) == sorted_leaves(leaves_view(leaves@)),
        r@.len() == leaves@.len(),
{
    let ghost lv = leaves_view(leaves@);
    let n = leaves.len();
    let mut keys: Vec<(u64, String, u64)> = Vec::new();
    let mut i: usize = 0;
    while i < n
        invariant
            i <= n,
            n == leaves@.len(),
            lv == leaves_view(leaves@),
            triples_view(keys@) == leaf_keys(lv).take(i as int),
        decreases n - i,
    {
        let ghost before = keys@;
        keys.push((leaves[i].leaf_index as u64, leaves[i].message_id.clone(), i as u64));
        proof {
            assert(triples_view(keys@) =~= triples_view(before).push(leaf_keys(lv)[i as int]));
            assert(leaf_keys(lv).take(i + 1) =~= leaf_keys(lv).take(i as int).push(
                leaf_keys(lv)[i as int],
            ));
        }
        i = i + 1;
    }
    assert(leaf_keys(lv).take(n as int) =~= leaf_keys(lv));
    let sorted = sort_triples(keys);
    let ghost sk = triples_view(sorted@);
    proof {
        crate::sorting::lemma_triple_leq_total();
        leaf_keys(lv).lemma_sort_by_ensures(triple_leq());
        assert(sk.len() == leaf_keys(lv).len()) by {
            sk.to_multiset_ensures();
            leaf_keys(lv).to_multiset_ensures();
        }
    }
    let mut out: Vec<DataLayerM1MerkleLeaf> = Vec::new();
    let mut k: usize = 0;
    while k < n
        invariant
            k <= n,
            n == leaves@.len(),
            lv == leaves_view(leaves@),
            sk == triples_view(sorted@),
            sk == leaf_keys(lv).sort_by(triple_leq()),
            sk.len() == n,
            forall|x: (u64, Seq<char>, u64)| #[trigger] sk.contains(x) ==> leaf_keys(lv).contains(x),
            leaves_view(out@) == sorted_leaves(lv).take(k as int),
        decreases n - k,
    {
        let pos = sorted[k].2;
        proof {
            assert(sk[k as int] == (sorted@[k as int].0, sorted@[k as int].1@, sorted@[k as int].2));
            assert(sk.contains(sk[k as int]));
            let j = choose|j: int| 0 <= j < leaf_keys(lv).len() && leaf_keys(lv)[j] == sk[k as int];
            assert(pos == j as u64);
        }
        let leaf = copy_leaf(&leaves[pos as usize]);
        let ghost before = out@;
        out.push(leaf);
        proof {
            assert(leaves_view(out@) =~= leaves_view(before).push(lv[pos as int]));
            assert(sorted_leaves(lv)[k as int] == lv[pos as int]);
            assert(sorted_leaves(lv).take(k + 1) =~= sorted_leaves(lv).take(k as int).push(
                lv[pos as int],
            ));
        }
        k = k + 1;
    }
    proof {
        assert(sorted_leaves(lv).take(n as int) =~= sorted_leaves(lv));
    }
    out
}

/// `content_hash` is `sha256:` plus at least one character, once trimmed.
pub(crate) fn is_valid_content_hash(content_hash: &str) -> (r: bool)
    ensures
        r == content_hash_valid(content_hash@),
{
    let t = trim_chars(content_hash);
    let ts = crate::text::string_from_chars(t.as_slice());
    t.len() > 7 && crate::text::starts_with(ts.as_str(), "sha256:")
}

/// Validates leaves in order; the first failing check is reported.
fn check_leaves(s: &Vec<DataLayerM1MerkleLeaf>) -> (r: Result<(), DataLayerM1Error>)
    ensures
        match leaves_fault(leaves_view(s@), s@.len() as int) {
            None => r is Ok,
            Some(f) => r matches Err(e) && reports_leaf_fault(e, f),
        },
{
    let ghost sv = leaves_view(s@);
    let n = s.len();
    let mut i: usize = 0;
    while i < n
        invariant
            i <= n,
            n == s@.len(),
            sv == leaves_view(s@),
            i <= 0x1_0000_0000,
            leaves_fault(sv, i as int) is None,
            forall|j: int| 0 <= j < i ==> (#[trigger] sv[j]).1 == j as u32 && j < 0x1_0000_0000,
        decreases n - i,
    {
        let leaf = &s[i];
        assert(sv[i as int] == leaf_view(*leaf));
        if is_blank(leaf.message_id.as_str()) {
            proof {
                lemma_leaves_fault_persists(sv, i + 1, n as int);
            }
            return Err(DataLayerM1Error::EmptyField("message_id"));
        }
        if !is_valid_content_hash(leaf.content_hash.as_str()) {
            proof {
                lemma_leaves_fault_persists(sv, i + 1, n as int);
            }
            return Err(DataLayerM1Error::InvalidContentHash(leaf.content_hash.clone()));
        }
        if (leaf.leaf_index as usize) < i {
            proof {
                let j = leaf.leaf_index as int;
                assert(sv[j].1 == j as u32);
                assert(exists|j: int| 0 <= j < i && sv[j].1 == sv[i as int].1);
                lemma_leaves_fault_persists(sv, i + 1, n as int);
            }
            return Err(DataLayerM1Error::DuplicateLeafIndex { leaf_index: leaf.leaf_index });
        }
        proof {
            assert forall|j: int| 0 <= j < i implies sv[j].1 != sv[i as int].1 by {
                assert(sv[j].1 == j as u32);
            }
        }
        let mut j: usize = 0;
        #[verifier::loop_isolation(false)]
        while j < i
            invariant
                j <= i < n,
                n == s@.len(),
                sv == leaves_view(s@),
                sv[i as int] == leaf_view(s@[i as int]),
                forall|q: int| 0 <= q < j ==> sv[q].0 != sv[i as int].0,
            decreases i - j,
        {
            if str_eq(s[j].message_id.as_str(), s[i].message_id.as_str()) {
                proof {
                    assert(sv[j as int] == leaf_view(s@[j as int]));
                    assert(exists|q: int| 0 <= q < i && sv[q].0 == sv[i as int].0);
                    lemma_leaves_fault_persists(sv, i + 1, n as int);
                }
                return Err(DataLayerM1Error::DuplicateMessageId(s[i].message_id.clone()));
            }
            proof {
                assert(sv[j as int] == leaf_view(s@[j as int]));
            }
            j = j + 1;
        }
        if leaf.leaf_index != i as u32 {
            proof {
                lemma_leaves_fault_persists(sv, i + 1, n as int);
            }
            return Err(
                DataLayerM1Error::NonContiguousLeafIndexes {
                    expected: i as u32,
                    found: leaf.leaf_index,
                },
            );
        }
        proof {
            if i == 0x1_0000_0000 {
                assert(sv[0].1 == 0u32);
                assert(false);
            }
        }
        i = i + 1;
    }
    Ok(())
}

/// The level above `current`.
fn build_next_level(level_index: usize, current: &Vec<String>) -> (r: Vec<String>)
    requires
        current@.len() >= 1,
    ensures
        str_views(r@) == next_level(level_index as nat, str_views(current@)),
{
    let ghost cv = str_views(current@);
    let ghost target = next_level(level_index as nat, cv);
    let n = current.len();
    let mut out: Vec<String> = Vec::new();
    let mut h: usize = 0;
    while h < n - h
        invariant
            n == current@.len(),
            cv == str_views(current@),
            target == next_level(level_index as nat, cv),
            h <= n,
            2 * h <= n + 1,
            out@.len() == h,
            str_views(out@) == target.take(h as int),
        decreases n - h,
    {
        let j = h + h;
        let left = current[j].as_str();
        let right = if j + 1 < n {
            current[j + 1].as_str()
        } else {
            current[j].as_str()
        };
        let node = node_digest(level_index, left, right);
        let ghost before = out@;
        out.push(node);
        proof {
            assert(target[h as int] == node@);
            assert(str_views(out@) =~= str_views(before).push(node@));
            assert(target.take(h + 1) =~= target.take(h as int).push(target[h as int]));
        }
        h = h + 1;
    }
    proof {
        assert(target.len() == (n + 1) / 2);
        assert(target.take(h as int) =~= target);
    }
    out
}

/// All levels over `level0`, up to the single-node root level.
fn build_levels(level0: Vec<String>) -> (r: Vec<Vec<String>>)
    requires
        level0@.len() >= 1,
    ensures
        levels_view(r@) == levels_from(0, str_views(level0@)),
{
    let ghost l0 = str_views(level0@);
    let mut levels: Vec<Vec<String>> = Vec::new();
    let mut current = level0;
    let mut k: usize = 0;
    assert(levels_view(levels@) =~= Seq::<Seq<Seq<char>>>::empty());
    let n0: usize = current.len();
    assert(l0.len() == n0);
    while current.len() > 1
        invariant
            current@.len() >= 1,
            k == levels@.len(),
            k + current@.len() <= l0.len(),
            l0.len() <= usize::MAX,
            levels_from(0, l0) == levels_view(levels@) + levels_from(k as nat, str_views(current@)),
        decreases current@.len(),
    {
        let next = build_next_level(k, &current);
        let ghost cv = str_views(current@);
        let ghost before = levels_view(levels@);
        proof {
            assert(levels_from(k as nat, cv) == seq![cv] + levels_from((k + 1) as nat, next_level(k as nat, cv)));
        }
        levels.push(current);
        current = next;
        proof {
            assert(levels_view(levels@) =~= before.push(cv));
            assert(before + (seq![cv] + levels_from((k + 1) as nat, str_views(current@))) =~= before.push(cv)
                + levels_from((k + 1) as nat, str_views(current@)));
        }
        k = k + 1;
    }
    let ghost before = levels_view(levels@);
    let ghost cv = str_views(current@);
    levels.push(current);
    proof {
        assert(levels_view(levels@) =~= before.push(cv));
        assert(levels_from(k as nat, cv) == seq![cv]);
        assert(before + seq![cv] =~= before.push(cv));
    }
    levels
}

/// Sibling of node `node_index` on `level`: the right neighbour (or the node
/// itself at the end of an odd level) for an even index, else the left one.
fn sibling_step(level: &Vec<String>, node_index: usize) -> (r: (usize, DataLayerM1ProofSiblingSide))
    requires
        node_index < level@.len(),
    ensures
        r.0 < level@.len(),
        (str_views(level@)[r.0 as int], r.1) == sibling(str_views(level@), node_index as int),
{
    if node_index % 2 == 0 {
        let right = if node_index + 1 < level.len() {
            node_index + 1
        } else {
            node_index
        };
        (right, DataLayerM1ProofSiblingSide::Right)
    } else {
        (node_index - 1, DataLayerM1ProofSiblingSide::Left)
    }
}

pub open spec fn steps_view(v: Seq<DataLayerM1MerkleProofStep>) -> Seq<
    (Seq<char>, DataLayerM1ProofSiblingSide),
> {
    v.map_values(|st: DataLayerM1MerkleProofStep| (st.sibling_hash@, st.sibling_side))
}

/// Proof steps for the leaf at `start_index`, from the leaves up to the root.
fn build_proof_steps(levels: &Vec<Vec<String>>, start_index: usize) -> (r: Vec<
    DataLayerM1MerkleProofStep,
>)
    requires
        levels_well_formed(levels_view(levels@), 0),
        start_index < levels_view(levels@)[0].len(),
    ensures
        steps_view(r@) == steps_from(levels_view(levels@), 0, start_index as int),
{
    let ghost lv = levels_view(levels@);
    let mut steps: Vec<DataLayerM1MerkleProofStep> = Vec::new();
    let mut node_index = start_index;
    let mut k: usize = 0;
    let top = levels.len() - 1;
    assert(steps_view(steps@) =~= Seq::<(Seq<char>, DataLayerM1ProofSiblingSide)>::empty());
    while k < top
        invariant
            lv == levels_view(levels@),
            levels_well_formed(lv, 0),
            top == lv.len() - 1,
            k <= top,
            node_index < lv[k as int].len(),
            steps_from(lv, 0, start_index as int) == steps_view(steps@) + steps_from(
                lv,
                k as int,
                node_index as int,
            ),
        decreases top - k,
    {
        let level = &levels[k];
        assert(lv[k as int] == str_views(level@));
        let (sibling_index, sibling_side) = sibling_step(level, node_index);
        let step = DataLayerM1ProofStep_new(level[sibling_index].clone(), sibling_side);
        let ghost before = steps_view(steps@);
        proof {
            assert(steps_from(lv, k as int, node_index as int) == seq![sibling(lv[k as int], node_index as int)]
                + steps_from(lv, k + 1, (node_index / 2) as int));
            assert(lv[k + 1] == next_level(k as nat, lv[k as int]));
        }
        steps.push(step);
        proof {
            assert(steps_view(steps@) =~= before.push(sibling(lv[k as int], node_index as int)));
            assert(before + (seq![sibling(lv[k as int], node_index as int)] + steps_from(lv, k + 1, (node_index / 2) as int))
                =~= before.push(sibling(lv[k as int], node_index as int)) + steps_from(lv, k + 1, (node_index / 2) as int));
        }
        node_index = node_index / 2;
        k = k + 1;
    }
    proof {
        assert(steps_from(lv, k as int, node_index as int) =~= Seq::<(Seq<char>, DataLayerM1ProofSiblingSide)>::empty());
        assert(steps_view(steps@) + Seq::<(Seq<char>, DataLayerM1ProofSiblingSide)>::empty() =~= steps_view(steps@));
    }
    steps
}

#[allow(non_snake_case)]
fn DataLayerM1ProofStep_new(sibling_hash: String, sibling_side: DataLayerM1ProofSiblingSide) -> (r:
    DataLayerM1MerkleProofStep)
    ensures
        r.sibling_hash == sibling_hash,
        r.sibling_side == sibling_side,
{
    DataLayerM1MerkleProofStep { sibling_hash, sibling_side }
}

/// Position of the first leaf carrying `message_id`.
fn find_leaf_position(leaves: &Vec<DataLayerM1MerkleLeaf>, message_id: &str) -> (r: Option<usize>)
    ensures
        r is None ==> forall|q: int| 0 <= q < leaves@.len() ==> leaves@[q].message_id@ != message_id@,
        r matches Some(p) ==> p < leaves@.len() && leaves@[p as int].message_id@ == message_id@ && (
        forall|q: int| 0 <= q < p ==> leaves@[q].message_id@ != message_id@),
{
    let mut p: usize = 0;
    while p < leaves.len()
        invariant
            p <= leaves@.len(),
            forall|q: int| 0 <= q < p ==> leaves@[q].message_id@ != message_id@,
        decreases leaves@.len() - p,
    {
        if str_eq(leaves[p].message_id.as_str(), message_id) {
            return Some(p);
        }
        p = p + 1;
    }
    None
}

impl DataLayerM1MerkleBatch {
    /// Leaves in batch order.
    pub closed spec fn leaves_model(&self) -> Seq<LeafModel> {
        leaves_view(self.tree.leaves@)
    }

    /// The batch identifier's text.
    pub closed spec fn batch_id_text(&self) -> Seq<char> {
        self.batch_id@
    }

    /// The merkle root's text.
    pub closed spec fn merkle_root_text(&self) -> Seq<char> {
        self.merkle_root@
    }

    /// The number of messages in the batch.
    pub closed spec fn message_count_value(&self) -> usize {
        self.message_count
    }

    /// The number of tree levels, leaves and root included.
    pub closed spec fn tree_height_value(&self) -> u16 {
        self.tree_height
    }

    /// The batch identifier.
    pub fn batch_id_str(&self) -> (r: &str)
        ensures
            r@ == self.batch_id_text(),
    {
        self.batch_id.as_str()
    }

    /// The merkle root.
    pub fn merkle_root_str(&self) -> (r: &str)
        ensures
            r@ == self.merkle_root_text(),
    {
        self.merkle_root.as_str()
    }

    /// The first message id's text.
    pub closed spec fn first_message_id_text(&self) -> Seq<char> {
        self.first_message_id@
    }

    /// The last message id's text.
    pub closed spec fn last_message_id_text(&self) -> Seq<char> {
        self.last_message_id@
    }

    /// The first message id.
    pub fn first_message_id_str(&self) -> (r: &str)
        ensures
            r@ == self.first_message_id_text(),
    {
        self.first_message_id.as_str()
    }

    /// The last message id.
    pub fn last_message_id_str(&self) -> (r: &str)
        ensures
            r@ == self.last_message_id_text(),
    {
        self.last_message_id.as_str()
    }

    /// The number of tree levels, leaves and root included.
    pub fn tree_height(&self) -> (r: u16)
        ensures
            r == self.tree_height_value(),
    {
        self.tree_height
    }

    /// The number of messages in the batch.
    pub fn message_count(&self) -> (r: usize)
        ensures
            r == self.message_count_value(),
    {
        self.message_count
    }

    /// Whether this is the batch assembled from the ordered leaves `s`.
    pub closed spec fn assembled_from(&self, s: Seq<LeafModel>) -> bool {
        &&& s.len() >= 1
        &&& leaves_fault(s, s.len() as int) is None
        &&& self.leaves_model() == s
        &&& self.merkle_root@ == root_of(s)
        &&& self.message_count == s.len()
        &&& self.first_message_id@ == s[0].0
        &&& self.last_message_id@ == s.last().0
        &&& self.batch_id@ == batch_hash(root_of(s), s.len(), s[0].0, s.last().0)
        &&& self.tree_height as int == tree_levels(s).len()
    }

    /// What an assembled batch holds.
    pub proof fn lemma_assembled(&self, s: Seq<LeafModel>)
        requires
            self.assembled_from(s),
        ensures
            s.len() >= 1,
            leaves_fault(s, s.len() as int) is None,
            self.leaves_model() == s,
            self.merkle_root_text() == root_of(s),
            self.batch_id_text() == batch_hash(root_of(s), s.len(), s[0].0, s.last().0),
            self.message_count_value() == s.len(),
            self.first_message_id_text() == s[0].0,
            self.last_message_id_text() == s.last().0,
            self.tree_height_value() as int == tree_levels(s).len(),
            forall|p: int|
                0 <= p < s.len() ==> #[trigger] steps_from(tree_levels(s), 0, p).len() == self.tree_height_value()
                    - 1,
    {
        lemma_levels_from_well_formed(0, level_zero(s));
        assert forall|p: int| 0 <= p < s.len() implies #[trigger] steps_from(tree_levels(s), 0, p).len()
            == self.tree_height_value() - 1 by {
            lemma_steps_len(tree_levels(s), 0, p);
        }
    }

    /// An inclusion proof built for a leaf of an assembled batch has one step
    /// per tree level below the root: `tree_height - 1` steps.
    pub proof fn lemma_inclusion_proof_step_count(
        &self,
        s: Seq<LeafModel>,
        pr: DataLayerM1MerkleInclusionProof,
        p: int,
    )
        requires
            self.assembled_from(s),
            0 <= p < self.leaves_model().len(),
            proof_view(pr) == built_proof(self.batch_id_text(), self.merkle_root_text(), self.leaves_model(), p),
        ensures
            pr.steps@.len() == self.tree_height_value() - 1,
    {
        self.lemma_assembled(s);
        assert(steps_from(tree_levels(s), 0, p).len() == self.tree_height_value() - 1);
        assert(proof_view(pr).steps.len() == pr.steps@.len());
    }

    /// Sorts leaves by `(leaf_index, message_id)`, validates them, and builds
    /// the tree, its root and the batch identifier.
    pub fn assemble(leaves: Vec<DataLayerM1MerkleLeaf>) -> (r: Result<Self, DataLayerM1Error>)
        ensures
            leaves@.len() == 0 ==> (r matches Err(e) && e == DataLayerM1Error::EmptyBatch),
            leaves@.len() > 0 ==> match leaves_fault(
                sorted_leaves(leaves_view(leaves@)),
                leaves@.len() as int,
            ) {
                Some(f) => r matches Err(e) && reports_leaf_fault(e, f),
                None => r matches Ok(b) && b.assembled_from(sorted_leaves(leaves_view(leaves@))),
            },
    {
        if leaves.len() == 0 {
            return Err(DataLayerM1Error::EmptyBatch);
        }
        let ordered = order_leaves(&leaves);
        check_leaves(&ordered)?;
        let ghost s = leaves_view(ordered@);
        let n = ordered.len();
        let mut level0: Vec<String> = Vec::new();
        let mut i: usize = 0;
        while i < n
            invariant
                i <= n,
                n == ordered@.len(),
                s == leaves_view(ordered@),
                str_views(level0@) == level_zero(s).take(i as int),
            decreases n - i,
        {
            let d = leaf_digest(&ordered[i]);
            let ghost before = str_views(level0@);
            level0.push(d);
            proof {
                assert(str_views(level0@) =~= before.push(d@));
                assert(level_zero(s).take(i + 1) =~= level_zero(s).take(i as int).push(level_zero(s)[i as int]));
            }
            i = i + 1;
        }
        assert(level_zero(s).take(n as int) =~= level_zero(s));
        let levels = build_levels(level0);
        proof {
            lemma_levels_from_well_formed(0, level_zero(s));
        }
        let top = levels.len() - 1;
        let merkle_root = levels[top][0].clone();
        proof {
            assert(levels_view(levels@)[top as int] == str_views(levels@[top as int]@));
            assert(merkle_root@ == root_of(s));
        }
        let first_message_id = ordered[0].message_id.clone();
        let last_message_id = ordered[n - 1].message_id.clone();
        let batch_id = batch_digest(merkle_root.as_str(), n, first_message_id.as_str(), last_message_id.as_str());
        proof {
            lemma_two_pow_64();
            lemma_levels_len_bound(0, level_zero(s), 64);
        }
        let tree_height = levels.len() as u16;
        proof {
            assert(s[0] == leaf_view(ordered@[0]));
            assert(s.last() == leaf_view(ordered@[n - 1]));
        }
        Ok(DataLayerM1MerkleBatch {
            batch_id,
            merkle_root,
            message_count: n,
            first_message_id,
            last_message_id,
            tree_height,
            tree: MerkleTree { leaves: ordered, levels },
        })
    }

    /// The leaves in batch order.
    pub fn leaves(&self) -> (r: &[DataLayerM1MerkleLeaf])
        ensures
            leaves_view(r@) == self.leaves_model(),
    {
        self.tree.leaves.as_slice()
    }

    /// Inclusion proof for the (first) leaf carrying `message_id`.
    pub fn inclusion_proof(&self, message_id: &str) -> (r: Result<
        DataLayerM1MerkleInclusionProof,
        DataLayerM1Error,
    >)
        ensures
            r is Ok <==> exists|i: int|
                0 <= i < self.leaves_model().len() && self.leaves_model()[i].0 == message_id@,
            r matches Err(e) ==> e matches DataLayerM1Error::UnknownMessageId(m) && m@ == message_id@,
            r matches Ok(pr) ==> exists|p: int|
                0 <= p < self.leaves_model().len() && self.leaves_model()[p].0 == message_id@ && (
                forall|q: int| 0 <= q < p ==> self.leaves_model()[q].0 != message_id@) && proof_view(pr)
                == built_proof(self.batch_id_text(), self.merkle_root_text(), self.leaves_model(), p),
    {
        proof {
            use_type_invariant(&self.tree);
        }
        let leaves = &self.tree.leaves;
        let ghost s = leaves_view(leaves@);
        let p = match find_leaf_position(leaves, message_id) {
            Some(p) => p,
            None => {
                proof {
                    assert forall|i: int| 0 <= i < s.len() implies s[i].0 != message_id@ by {
                        assert(s[i] == leaf_view(leaves@[i]));
                    }
                }
                return Err(DataLayerM1Error::UnknownMessageId(message_id.to_owned()));
            },
        };
        assert(s[p as int] == leaf_view(leaves@[p as int]));
        let levels = &self.tree.levels;
        proof {
            lemma_levels_from_well_formed(0, level_zero(s));
            assert(levels_view(levels@)[0] == str_views(levels@[0]@));
        }
        let leaf = &leaves[p];
        let steps = build_proof_steps(levels, p);
        let proof_value = DataLayerM1MerkleInclusionProof {
            batch_id: self.batch_id.clone(),
            merkle_root: self.merkle_root.clone(),
            message_id: leaf.message_id.clone(),
            leaf_index: leaf.leaf_index,
            content_hash: leaf.content_hash.clone(),
            leaf_hash: levels[0][p].clone(),
            steps,
        };
        proof {
            assert(proof_view(proof_value) == built_proof(self.batch_id@, self.merkle_root@, s, p as int));
            assert(self.leaves_model()[p as int].0 == message_id@);
            assert(proof_view(proof_value) == built_proof(
                self.batch_id_text(),
                self.merkle_root_text(),
                self.leaves_model(),
                p as int,
            ));
            assert forall|q: int| 0 <= q < p implies self.leaves_model()[q].0 != message_id@ by {
                assert(s[q] == leaf_view(leaves@[q]));
            }
        }
        Ok(proof_value)
    }
}

} // verus!
