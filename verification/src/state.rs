//! The outer state container and its canonical commitment.
//!
//! The outer state is the triple `{ inner, next_pred, exports }`.  Its
//! canonical hash is the field-merkleized binary tree over exactly three
//! leaves in this order, padded with the zero leaf to the next power of two;
//! the leaf of each variable-length field is that field's own canonical hash
//! including its length mix-in.

use vstd::prelude::*;
use crate::constants::{MAX_EXPORT_CONTAINERS, MAX_EXPORT_ENTRIES, PREDICATE_CHUNK_LIMIT};
use crate::errors::ExportStateError;
use crate::hash::{sha256_pair, sha256_pair_hash};
use crate::id::{InnerStateCommitment, MohoStateCommitment};
use crate::merkle::{
    compute_padded_root, lemma_is_pow2_constants, merkle_root, pad_to, root_from_level, views_of,
    MerkleTree,
};
use crate::predicate::{PredicateKey, PredicateKeyView};
use crate::ssz_merkle_utils::{
    byte_list_root, le64_chunk, spec_byte_list_root, spec_le64_chunk, SszFieldRoots,
};

verus! {

/// The mathematical value of an export container.
pub ghost struct ExportContainerView {
    pub container_id: u8,
    pub entries: Seq<Seq<u8>>,
}

impl ExportContainerView {
    /// The entry count fits the container's capacity.
    pub open spec fn wf(self) -> bool {
        self.entries.len() <= MAX_EXPORT_ENTRIES
    }
}

/// The 32-byte chunk holding a container id.
pub open spec fn spec_container_id_chunk(id: u8) -> Seq<u8> {
    Seq::new(32, |j: int| if j == 0 { id } else { 0u8 })
}

/// The canonical hash of a container's entry accumulator: the entry digests
/// padded with zero chunks to the capacity, merkleized, with the entry count
/// mixed in.
pub open spec fn spec_entries_root(entries: Seq<Seq<u8>>) -> Seq<u8> {
    sha256_pair_hash(
        root_from_level(pad_to(entries, MAX_EXPORT_ENTRIES as nat)),
        spec_le64_chunk(entries.len() as u64),
    )
}

/// The canonical hash of an export container: its id chunk paired with the
/// root of its entry accumulator.
pub open spec fn spec_container_root(v: ExportContainerView) -> Seq<u8> {
    sha256_pair_hash(spec_container_id_chunk(v.container_id), spec_entries_root(v.entries))
}

/// The canonical hashes of a sequence of containers.
pub open spec fn spec_container_roots(s: Seq<ExportContainerView>) -> Seq<Seq<u8>> {
    Seq::new(s.len(), |i: int| spec_container_root(s[i]))
}

/// The canonical hash of the export state: the container roots padded with
/// zero chunks to the capacity, merkleized, with the container count mixed
/// in.
pub open spec fn spec_exports_root(s: Seq<ExportContainerView>) -> Seq<u8> {
    sha256_pair_hash(
        root_from_level(pad_to(spec_container_roots(s), MAX_EXPORT_CONTAINERS as nat)),
        spec_le64_chunk(s.len() as u64),
    )
}

/// Whether some container of `s` has the id `id`.
pub open spec fn spec_has_container(s: Seq<ExportContainerView>, id: u8) -> bool {
    exists|i: int| 0 <= i < s.len() && s[i].container_id == id
}

/// Whether the containers of `s` have pairwise distinct ids.
pub open spec fn spec_unique_ids(s: Seq<ExportContainerView>) -> bool {
    forall|i: int, j: int|
        0 <= i < j < s.len() ==> s[i].container_id != s[j].container_id
}

/// Well-formedness of an export state: distinct container ids, the container
/// count within capacity, and each container well-formed.
pub open spec fn spec_exports_wf(s: Seq<ExportContainerView>) -> bool {
    &&& spec_unique_ids(s)
    &&& s.len() <= MAX_EXPORT_CONTAINERS
    &&& forall|i: int| 0 <= i < s.len() ==> (#[trigger] s[i]).wf()
}

/// The views of a sequence of containers.
pub open spec fn container_views(s: Seq<ExportContainer>) -> Seq<ExportContainerView> {
    Seq::new(s.len(), |i: int| s[i]@)
}

/// A sub-accumulator within the export state, addressed by a small integer
/// id, holding an append-only accumulator of 32-byte entry digests.
#[derive(Debug, PartialEq, Eq)]
pub struct ExportContainer {
    container_id: u8,
    entries: Vec<[u8; 32]>,
}

impl View for ExportContainer {
    type V = ExportContainerView;

    closed spec fn view(&self) -> ExportContainerView {
        ExportContainerView { container_id: self.container_id, entries: views_of(self.entries@) }
    }
}

impl Clone for ExportContainer {
    /// A clone carries the same id and entries.
    fn clone(&self) -> (r: Self)
        ensures
            r@ == self@,
    {
        let mut entries: Vec<[u8; 32]> = Vec::new();
        let mut i: usize = 0;
        while i < self.entries.len()
            invariant
                i <= self.entries@.len(),
                entries@ =~= self.entries@.take(i as int),
            decreases self.entries@.len() - i,
        {
            entries.push(self.entries[i]);
            i += 1;
        }
        proof {
            assert(entries@ =~= self.entries@);
        }
        ExportContainer { container_id: self.container_id, entries }
    }
}

impl ExportContainer {
    /// Build a container over the given entry digests.
    pub fn new(container_id: u8, entries: Vec<[u8; 32]>) -> (r: Self)
        requires
            entries@.len() <= MAX_EXPORT_ENTRIES,
        ensures
            r@ == (ExportContainerView { container_id, entries: views_of(entries@) }),
    {
        ExportContainer { container_id, entries }
    }

    /// The container's id.
    pub fn container_id(&self) -> (r: u8)
        ensures
            r == self@.container_id,
    {
        self.container_id
    }

    /// The accumulated entry digests, in insertion order.
    pub fn entries(&self) -> (r: &Vec<[u8; 32]>)
        ensures
            views_of(r@) == self@.entries,
    {
        &self.entries
    }

    /// Append an entry digest.  Appending never removes or reorders earlier
    /// entries; it fails iff the entry count would exceed the capacity.
    pub fn add_entry(&mut self, entry: [u8; 32]) -> (r: Result<(), ExportStateError>)
        ensures
            final(self)@.container_id == old(self)@.container_id,
            if old(self)@.entries.len() < MAX_EXPORT_ENTRIES {
                r is Ok && final(self)@.entries == old(self)@.entries.push(entry@)
            } else {
                r == Result::<(), ExportStateError>::Err(ExportStateError::AddEntryFailed)
                    && final(self)@ == old(self)@
            },
    {
        if self.entries.len() < MAX_EXPORT_ENTRIES {
            self.entries.push(entry);
            proof {
                assert(views_of(self.entries@) =~= old(self)@.entries.push(entry@));
            }
            Ok(())
        } else {
            Err(ExportStateError::AddEntryFailed)
        }
    }

    /// The canonical hash of this container.
    pub fn root(&self) -> (r: [u8; 32])
        requires
            self@.wf(),
        ensures
            r@ == spec_container_root(self@),
    {
        proof {
            lemma_is_pow2_constants();
        }
        let mut id_chunk = [0u8; 32];
        id_chunk[0] = self.container_id;
        proof {
            assert(id_chunk@ =~= spec_container_id_chunk(self@.container_id));
        }

        let mut padded: Vec<[u8; 32]> = Vec::new();
        let mut i: usize = 0;
        while i < self.entries.len()
            invariant
                i <= self.entries@.len(),
                padded@ =~= self.entries@.take(i as int),
            decreases self.entries@.len() - i,
        {
            padded.push(self.entries[i]);
            i += 1;
        }
        proof {
            assert(padded@ =~= self.entries@);
        }
        let entries_merkle = compute_padded_root(padded, MAX_EXPORT_ENTRIES);
        let len_chunk = le64_chunk(self.entries.len() as u64);
        let entries_root = sha256_pair(&entries_merkle, &len_chunk);
        sha256_pair(&id_chunk, &entries_root)
    }
}

/// The portion of the outer state readable by external consumers: an ordered
/// list of export containers with pairwise distinct ids; append-only.
#[derive(Debug, PartialEq, Eq)]
pub struct ExportState {
    containers: Vec<ExportContainer>,
}

impl View for ExportState {
    type V = Seq<ExportContainerView>;

    closed spec fn view(&self) -> Seq<ExportContainerView> {
        container_views(self.containers@)
    }
}

impl Clone for ExportState {
    /// A clone carries the same containers.
    fn clone(&self) -> (r: Self)
        ensures
            r@ == self@,
    {
        let mut containers: Vec<ExportContainer> = Vec::new();
        let mut i: usize = 0;
        while i < self.containers.len()
            invariant
                i <= self.containers@.len(),
                containers@.len() == i,
                forall|k: int| 0 <= k < i ==> containers@[k]@ == self.containers@[k]@,
            decreases self.containers@.len() - i,
        {
            let c = self.containers[i].clone();
            containers.push(c);
            i += 1;
        }
        let r = ExportState { containers };
        proof {
            assert(r@ =~= self@);
        }
        r
    }
}

impl ExportState {
    /// Build an export state over the given containers.
    pub fn new(containers: Vec<ExportContainer>) -> (r: Self)
        requires
            spec_exports_wf(container_views(containers@)),
        ensures
            r@ == container_views(containers@),
    {
        ExportState { containers }
    }

    /// The containers, in insertion order.
    pub fn containers(&self) -> (r: &Vec<ExportContainer>)
        ensures
            container_views(r@) == self@,
    {
        &self.containers
    }

    /// The index of the container with the given id, or the container count
    /// if none has it.
    fn find_container_index(&self, container_id: u8) -> (r: usize)
        ensures
            r <= self@.len(),
            r < self@.len() ==> self@[r as int].container_id == container_id,
            forall|k: int| 0 <= k < r ==> self@[k].container_id != container_id,
            r == self@.len() ==> !spec_has_container(self@, container_id),
    {
        let mut i: usize = 0;
        while i < self.containers.len()
            invariant
                i <= self.containers@.len(),
                forall|k: int| 0 <= k < i ==> self@[k].container_id != container_id,
            decreases self.containers@.len() - i,
        {
            if self.containers[i].container_id() == container_id {
                return i;
            }
            i += 1;
        }
        i
    }

    /// Append an entry digest to the container with the given id.  If no
    /// container with that id exists, a fresh one is created holding just
    /// this entry.  Fails iff a capacity would be exceeded.
    pub fn add_entry(&mut self, container_id: u8, entry: [u8; 32]) -> (r: Result<
        (),
        ExportStateError,
    >)
        requires
            spec_exports_wf(old(self)@),
        ensures
            spec_exports_wf(final(self)@),
            spec_has_container(old(self)@, container_id) ==> exists|i: int|
                0 <= i < old(self)@.len() && old(self)@[i].container_id == container_id && (if old(
                    self,
                )@[i].entries.len() < MAX_EXPORT_ENTRIES {
                    r is Ok && final(self)@ =~= old(self)@.update(
                        i,
                        ExportContainerView {
                            container_id,
                            entries: old(self)@[i].entries.push(entry@),
                        },
                    )
                } else {
                    r is Err && final(self)@ == old(self)@
                }),
            !spec_has_container(old(self)@, container_id) ==> (if old(self)@.len()
                < MAX_EXPORT_CONTAINERS {
                r is Ok && final(self)@ =~= old(self)@.push(
                    ExportContainerView { container_id, entries: seq![entry@] },
                )
            } else {
                r is Err && final(self)@ == old(self)@
            }),
    {
        let ghost old_views = self@;
        let i = self.find_container_index(container_id);
        if i < self.containers.len() {
            // the container exists: append to it
            let mut c = self.containers.remove(i);
            proof {
                assert(c@ == old_views[i as int]);
            }
            let res = c.add_entry(entry);
            let ghost cv = c@;
            self.containers.insert(i, c);
            proof {
                assert(self@ =~= old_views.update(i as int, cv));
                if old_views[i as int].entries.len() < MAX_EXPORT_ENTRIES {
                    assert(self@ =~= old_views.update(
                        i as int,
                        ExportContainerView {
                            container_id,
                            entries: old_views[i as int].entries.push(entry@),
                        },
                    ));
                } else {
                    assert(self@ =~= old_views);
                }
                assert(spec_has_container(old_views, container_id));
                assert(spec_exports_wf(self@));
            }
            res
        } else {
            // no such container: create one holding this entry
            if self.containers.len() < MAX_EXPORT_CONTAINERS {
                let mut entries: Vec<[u8; 32]> = Vec::new();
                entries.push(entry);
                let c = ExportContainer::new(container_id, entries);
                self.containers.push(c);
                proof {
                    assert(views_of(seq![entry]) =~= seq![entry@]);
                    assert(self@ =~= old_views.push(
                        ExportContainerView { container_id, entries: seq![entry@] },
                    ));
                    assert(spec_exports_wf(self@));
                }
                Ok(())
            } else {
                Err(ExportStateError::AddEntryFailed)
            }
        }
    }

    /// The canonical hash of the export state.
    pub fn root(&self) -> (r: [u8; 32])
        requires
            spec_exports_wf(self@),
        ensures
            r@ == spec_exports_root(self@),
    {
        proof {
            lemma_is_pow2_constants();
        }
        let mut roots: Vec<[u8; 32]> = Vec::new();
        let mut i: usize = 0;
        while i < self.containers.len()
            invariant
                i <= self.containers@.len(),
                spec_exports_wf(self@),
                roots@.len() == i,
                forall|k: int| 0 <= k < i ==> roots@[k]@ == spec_container_root(self@[k]),
            decreases self.containers@.len() - i,
        {
            proof {
                assert(self.containers@[i as int]@ == self@[i as int]);
                assert(self@[i as int].wf());
            }
            let root = self.containers[i].root();
            roots.push(root);
            i += 1;
        }
        proof {
            assert(views_of(roots@) =~= spec_container_roots(self@));
        }
        let merkle = compute_padded_root(roots, MAX_EXPORT_CONTAINERS);
        let len_chunk = le64_chunk(self.containers.len() as u64);
        sha256_pair(&merkle, &len_chunk)
    }
}

/// The mathematical value of an outer state.
pub ghost struct MohoStateView {
    pub inner_state: Seq<u8>,
    pub next_predicate: PredicateKeyView,
    pub export_state: Seq<ExportContainerView>,
}

impl MohoStateView {
    /// Validity of the outer state: the predicate condition and the export
    /// accumulator fit their protocol bounds.
    pub open spec fn wf(self) -> bool {
        self.next_predicate.wf() && spec_exports_wf(self.export_state)
    }
}

/// The three field roots of an outer state, in fixed order: the inner-state
/// commitment chunk, the canonical hash of the encoded next-step predicate,
/// and the canonical hash of the export state.
pub open spec fn spec_field_roots(v: MohoStateView) -> Seq<Seq<u8>> {
    seq![
        v.inner_state,
        spec_byte_list_root(v.next_predicate.to_bytes(), PREDICATE_CHUNK_LIMIT as nat),
        spec_exports_root(v.export_state),
    ]
}

/// The canonical commitment of an outer state: the Merkle root over its
/// three field roots, padded with the zero leaf to the next power of two.
pub open spec fn spec_moho_commitment(v: MohoStateView) -> Seq<u8> {
    merkle_root(spec_field_roots(v))
}

/// The outer state: the inner-state commitment, the next-step predicate and
/// the export accumulator.
#[derive(Debug, PartialEq, Eq)]
pub struct MohoState {
    inner_state: InnerStateCommitment,
    next_predicate: PredicateKey,
    export_state: ExportState,
}

impl View for MohoState {
    type V = MohoStateView;

    closed spec fn view(&self) -> MohoStateView {
        MohoStateView {
            inner_state: self.inner_state@,
            next_predicate: self.next_predicate@,
            export_state: self.export_state@,
        }
    }
}

impl Clone for MohoState {
    /// A clone carries the same fields.
    fn clone(&self) -> (r: Self)
        ensures
            r@ == self@,
    {
        MohoState {
            inner_state: self.inner_state,
            next_predicate: self.next_predicate.clone(),
            export_state: self.export_state.clone(),
        }
    }
}

impl MohoState {
    /// Build an outer state from its three fields.
    pub fn new(
        inner_state: InnerStateCommitment,
        next_predicate: PredicateKey,
        export_state: ExportState,
    ) -> (r: Self)
        ensures
            r@ == (MohoStateView {
                inner_state: inner_state@,
                next_predicate: next_predicate@,
                export_state: export_state@,
            }),
    {
        MohoState { inner_state, next_predicate, export_state }
    }

    /// The inner-state commitment.
    pub fn inner_state(&self) -> (r: InnerStateCommitment)
        ensures
            r@ == self@.inner_state,
    {
        self.inner_state
    }

    /// The predicate that must authorize the next step.
    pub fn next_predicate(&self) -> (r: PredicateKey)
        ensures
            r@ == self@.next_predicate,
    {
        self.next_predicate.clone()
    }

    /// The export state.
    pub fn export_state(&self) -> (r: &ExportState)
        ensures
            r@ == self@.export_state,
    {
        &self.export_state
    }

    /// Consume the state and return its export state.
    pub fn into_export_state(self) -> (r: ExportState)
        ensures
            r@ == self@.export_state,
    {
        self.export_state
    }

    /// The three field roots, in fixed order.
    pub fn field_roots(&self) -> (r: Vec<[u8; 32]>)
        requires
            spec_exports_wf(self@.export_state),
        ensures
            views_of(r@) == spec_field_roots(self@),
            r@.len() == 3,
    {
        proof {
            lemma_is_pow2_constants();
        }
        let mut r: Vec<[u8; 32]> = Vec::new();
        r.push(*self.inner_state.inner());
        let pred_bytes = self.next_predicate.to_bytes();
        r.push(byte_list_root(pred_bytes.as_slice(), PREDICATE_CHUNK_LIMIT));
        r.push(self.export_state.root());
        proof {
            assert(views_of(r@) =~= spec_field_roots(self@));
        }
        r
    }

    /// The canonical commitment of this state.  Two structurally equal
    /// states yield byte-equal commitments.
    pub fn compute_commitment(&self) -> (r: MohoStateCommitment)
        requires
            spec_exports_wf(self@.export_state),
        ensures
            r@ == spec_moho_commitment(self@),
    {
        let leaves = self.field_roots();
        let root = MerkleTree::compute_root(leaves.as_slice());
        MohoStateCommitment::new(root)
    }
}

impl SszFieldRoots for MohoState {
    open spec fn spec_field_roots(&self) -> Seq<Seq<u8>> {
        spec_field_roots(self@)
    }

    open spec fn field_roots_wf(&self) -> bool {
        spec_exports_wf(self@.export_state)
    }

    fn ssz_field_roots(&self) -> (r: Vec<[u8; 32]>)
        ensures
            views_of(r@) == self.spec_field_roots(),
            r@.len() <= 256,
    {
        self.field_roots()
    }
}

/// Outer commitment determinism and congruence: structurally equal outer
/// states have byte-equal commitments; in particular, two computations of
/// the commitment of one state agree.
pub proof fn lemma_commitment_deterministic(v1: MohoStateView, v2: MohoStateView)
    requires
        v1 == v2,
    ensures
        spec_moho_commitment(v1) == spec_moho_commitment(v2),
{
}

/// Field-inclusion soundness: for each of the three field positions, folding
/// the generated branch from that field's root reconstructs the outer
/// commitment, so a generated inclusion proof always verifies.
pub proof fn lemma_field_inclusion_sound(v: MohoStateView, i: nat)
    requires
        i < 3,
    ensures
        crate::merkle::fold_branch(
            spec_field_roots(v)[i as int],
            crate::merkle::merkle_branch(
                crate::merkle::pad_to(
                    spec_field_roots(v),
                    crate::merkle::next_pow2(spec_field_roots(v).len()),
                ),
                i,
            ),
            i,
        ) == spec_moho_commitment(v),
{
    crate::merkle::lemma_generated_branch_verifies(spec_field_roots(v), i);
}

} // verus!
