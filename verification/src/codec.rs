//! The canonical binary codec.
//!
//! All over-the-wire and in-claim bytes use one deterministic encoding:
//! fixed-width integers little-endian, sequences prefixed with a 4-byte
//! count, fixed-size byte arrays inline, variable-size byte arrays as
//! length-prefixed buffers.  Encoding is injective on the representable
//! value space: decoding an encoding yields the value back.

use vstd::prelude::*;
use crate::constants::{MAX_CONDITION_SIZE, MAX_PREDICATE_SIZE};
use crate::id::{MohoStateCommitment, StateReference};
use crate::predicate::{PredicateKey, PredicateKeyView};
use crate::program::{
    MohoRecursiveInput, MohoRecursiveInputView, MohoRecursiveOutput, MohoRecursiveOutputView,
};
use crate::relation::StateRefAttestation;
use crate::relation::StateRefAttestationView;
use crate::ssz_merkle_utils::{InclusionProofView, SszLeafInclusionProof};
use crate::transition::{
    MohoTransitionWithProof, Transition, TransitionView, TransitionWithProofView,
};

verus! {

/// The 4-byte little-endian encoding of a 32-bit count.
pub open spec fn spec_le32(n: u32) -> Seq<u8> {
    Seq::new(4, |j: int| (n >> (8 * j)) as u8)
}

/// The encoding of a state-ref attestation: the 32 reference bytes followed
/// by the 32 commitment bytes.
pub open spec fn spec_encode_ref_att(v: StateRefAttestationView) -> Seq<u8> {
    v.reference + v.commitment
}

/// The encoding of a transition: the `from` attestation followed by the `to`
/// attestation.
pub open spec fn spec_encode_transition(t: TransitionView) -> Seq<u8> {
    spec_encode_ref_att(t.from_state) + spec_encode_ref_att(t.to_state)
}

/// Append a byte slice.
pub(crate) fn push_bytes(out: &mut Vec<u8>, bytes: &[u8])
    ensures
        final(out)@ == old(out)@ + bytes@,
{
    let mut i: usize = 0;
    while i < bytes.len()
        invariant
            i <= bytes@.len(),
            out@ =~= old(out)@ + bytes@.take(i as int),
        decreases bytes@.len() - i,
    {
        out.push(*vstd::slice::slice_index_get(bytes, i));
        i += 1;
    }
    proof {
        assert(out@ =~= old(out)@ + bytes@);
    }
}

/// Append 32 bytes.
pub(crate) fn push_bytes32(out: &mut Vec<u8>, bytes: &[u8; 32])
    ensures
        final(out)@ == old(out)@ + bytes@,
{
    push_bytes(out, vstd::array::array_as_slice(bytes));
}

/// Append a 32-bit count, little-endian.
pub(crate) fn push_le32(out: &mut Vec<u8>, n: u32)
    ensures
        final(out)@ == old(out)@ + spec_le32(n),
{
    out.push(n as u8);
    out.push((n >> 8) as u8);
    out.push((n >> 16) as u8);
    out.push((n >> 24) as u8);
    proof {
        assert(n >> 0 == n) by (bit_vector);
        assert(out@ =~= old(out)@ + spec_le32(n));
    }
}

/// Append the encoding of a state-ref attestation.
pub(crate) fn push_ref_att(out: &mut Vec<u8>, att: &StateRefAttestation)
    ensures
        final(out)@ == old(out)@ + spec_encode_ref_att(att@),
{
    push_bytes32(out, att.reference().inner());
    push_bytes32(out, att.commitment().inner());
    proof {
        assert(out@ =~= old(out)@ + spec_encode_ref_att(att@));
    }
}

/// Append the encoding of a transition.
pub(crate) fn push_transition(out: &mut Vec<u8>, t: &Transition)
    ensures
        final(out)@ == old(out)@ + spec_encode_transition(t@),
{
    push_ref_att(out, t.from());
    push_ref_att(out, t.to());
    proof {
        assert(out@ =~= old(out)@ + spec_encode_transition(t@));
    }
}

/// The canonical encoding of a transition, used as the claim handed to
/// predicate verification.
pub fn encode_transition(t: &Transition) -> (r: Vec<u8>)
    ensures
        r@ == spec_encode_transition(t@),
{
    let mut out: Vec<u8> = Vec::new();
    push_transition(&mut out, t);
    proof {
        assert(out@ =~= spec_encode_transition(t@));
    }
    out
}

/// The encoding of a predicate key: the kind tag, then the condition as a
/// length-prefixed buffer.
pub open spec fn spec_encode_predicate(p: PredicateKeyView) -> Seq<u8> {
    seq![p.kind] + spec_le32(p.condition.len() as u32) + p.condition
}

/// The encoding of a variable-size byte buffer: a 4-byte count, then the
/// bytes.
pub open spec fn spec_encode_lenbytes(b: Seq<u8>) -> Seq<u8> {
    spec_le32(b.len() as u32) + b
}

/// The encoding of a transition with its witness: the transition, then the
/// witness as a length-prefixed buffer.
pub open spec fn spec_encode_tw(v: TransitionWithProofView) -> Seq<u8> {
    spec_encode_transition(v.transition) + spec_encode_lenbytes(v.witness)
}

/// The encoding of an optional transition-with-witness: a one-byte tag, `0`
/// for absent and `1` followed by the payload for present.  An absent value
/// is distinguished from any present one.
pub open spec fn spec_encode_opt_tw(v: Option<TransitionWithProofView>) -> Seq<u8> {
    match v {
        None => seq![0u8],
        Some(tw) => seq![1u8] + spec_encode_tw(tw),
    }
}

/// The concatenation of a sequence of 32-byte chunks.
pub open spec fn spec_concat_chunks(s: Seq<Seq<u8>>) -> Seq<u8>
    decreases s.len(),
{
    if s.len() == 0 {
        Seq::empty()
    } else {
        s[0] + spec_concat_chunks(s.drop_first())
    }
}

/// The encoding of a leaf-inclusion proof: a 4-byte count of branch nodes,
/// the nodes inline, then the leaf index.
pub open spec fn spec_encode_incl(v: InclusionProofView) -> Seq<u8> {
    spec_le32(v.branch.len() as u32) + spec_concat_chunks(v.branch) + seq![v.leaf_index]
}

/// The encoding of a recursion-step input: its five fields in order.
pub open spec fn spec_encode_input(v: MohoRecursiveInputView) -> Seq<u8> {
    spec_encode_predicate(v.moho_predicate) + spec_encode_opt_tw(v.prev_recursive_proof)
        + spec_encode_tw(v.incremental_step_proof) + spec_encode_predicate(v.step_predicate)
        + spec_encode_incl(v.step_predicate_merkle_proof)
}

/// The encoding of a recursion-step output: the transition, then the
/// recursion predicate.
pub open spec fn spec_encode_output(v: MohoRecursiveOutputView) -> Seq<u8> {
    spec_encode_transition(v.transition) + spec_encode_predicate(v.moho_predicate)
}

/// Append the encoding of a predicate key.
pub(crate) fn push_predicate(out: &mut Vec<u8>, p: &PredicateKey)
    ensures
        final(out)@ == old(out)@ + spec_encode_predicate(p@),
{
    out.push(p.kind());
    push_le32(out, p.condition().len() as u32);
    push_bytes(out, p.condition().as_slice());
    proof {
        assert(out@ =~= old(out)@ + spec_encode_predicate(p@));
    }
}

/// Append a length-prefixed byte buffer.
pub(crate) fn push_lenbytes(out: &mut Vec<u8>, b: &Vec<u8>)
    requires
        b@.len() <= u32::MAX,
    ensures
        final(out)@ == old(out)@ + spec_encode_lenbytes(b@),
{
    push_le32(out, b.len() as u32);
    push_bytes(out, b.as_slice());
    proof {
        assert(out@ =~= old(out)@ + spec_encode_lenbytes(b@));
    }
}

/// Append the encoding of a transition with its witness.
pub(crate) fn push_tw(out: &mut Vec<u8>, v: &MohoTransitionWithProof)
    requires
        v@.witness.len() <= u32::MAX,
    ensures
        final(out)@ == old(out)@ + spec_encode_tw(v@),
{
    push_transition(out, v.transition());
    push_lenbytes(out, v.witness());
    proof {
        assert(out@ =~= old(out)@ + spec_encode_tw(v@));
    }
}

/// Append the encoding of a leaf-inclusion proof.
pub(crate) fn push_incl(out: &mut Vec<u8>, v: &SszLeafInclusionProof)
    requires
        v@.branch.len() <= u32::MAX,
    ensures
        final(out)@ == old(out)@ + spec_encode_incl(v@),
{
    push_le32(out, v.branch.len() as u32);
    let ghost mid = out@;
    let mut i: usize = 0;
    while i < v.branch.len()
        invariant
            i <= v.branch@.len(),
            out@ =~= mid + spec_concat_chunks(v@.branch.take(i as int)),
        decreases v.branch@.len() - i,
    {
        let ghost prev_take = v@.branch.take(i as int);
        push_bytes32(out, &v.branch[i]);
        proof {
            lemma_concat_chunks_snoc(prev_take, v@.branch[i as int]);
            assert(v@.branch.take(i + 1) =~= prev_take.push(v@.branch[i as int]));
        }
        i += 1;
    }
    proof {
        assert(v@.branch.take(v.branch@.len() as int) =~= v@.branch);
    }
    out.push(v.leaf_index);
    proof {
        assert(out@ =~= old(out)@ + spec_encode_incl(v@));
    }
}

/// Appending one chunk extends the concatenation by that chunk.
proof fn lemma_concat_chunks_snoc(s: Seq<Seq<u8>>, c: Seq<u8>)
    ensures
        spec_concat_chunks(s.push(c)) == spec_concat_chunks(s) + c,
    decreases s.len(),
{
    if s.len() == 0 {
        assert(s.push(c).drop_first().len() == 0);
        assert(spec_concat_chunks(s.push(c).drop_first()) == Seq::<u8>::empty());
        assert(s.push(c)[0] == c);
        assert(spec_concat_chunks(s.push(c)) == c + Seq::<u8>::empty());
        assert(spec_concat_chunks(s) == Seq::<u8>::empty());
        assert(c + Seq::<u8>::empty() =~= Seq::<u8>::empty() + c);
    } else {
        assert(s.push(c).drop_first() =~= s.drop_first().push(c));
        lemma_concat_chunks_snoc(s.drop_first(), c);
        assert(spec_concat_chunks(s.push(c)) == s[0] + spec_concat_chunks(s.drop_first().push(c)));
        assert((s[0] + spec_concat_chunks(s.drop_first())) + c =~= s[0] + (spec_concat_chunks(
            s.drop_first(),
        ) + c));
    }
}

/// The canonical encoding of a recursion-step input.
pub fn encode_recursive_input(v: &MohoRecursiveInput) -> (r: Vec<u8>)
    requires
        spec_input_representable(v@),
    ensures
        r@ == spec_encode_input(v@),
{
    let mut out: Vec<u8> = Vec::new();
    push_predicate(&mut out, &v.moho_predicate);
    match &v.prev_recursive_proof {
        None => {
            out.push(0u8);
        },
        Some(tw) => {
            out.push(1u8);
            push_tw(&mut out, tw);
        },
    }
    push_tw(&mut out, &v.incremental_step_proof);
    push_predicate(&mut out, &v.step_predicate);
    push_incl(&mut out, &v.step_predicate_merkle_proof);
    proof {
        assert(out@ =~= spec_encode_input(v@));
    }
    out
}

/// The canonical encoding of a recursion-step output.
pub fn encode_recursive_output(v: &MohoRecursiveOutput) -> (r: Vec<u8>)
    ensures
        r@ == spec_encode_output(v@),
{
    let mut out: Vec<u8> = Vec::new();
    push_transition(&mut out, &v.transition);
    push_predicate(&mut out, &v.moho_predicate);
    proof {
        assert(out@ =~= spec_encode_output(v@));
    }
    out
}

/// A state-ref attestation's byte fields have their fixed widths.
pub open spec fn spec_ref_att_representable(v: StateRefAttestationView) -> bool {
    v.reference.len() == 32 && v.commitment.len() == 32
}

/// A transition's attestations are representable.
pub open spec fn spec_transition_representable(t: TransitionView) -> bool {
    spec_ref_att_representable(t.from_state) && spec_ref_att_representable(t.to_state)
}

/// A transition-with-witness is representable: the witness count fits the
/// 4-byte prefix.
pub open spec fn spec_tw_representable(v: TransitionWithProofView) -> bool {
    spec_transition_representable(v.transition) && v.witness.len() <= u32::MAX
}

/// An inclusion proof is representable: 32-byte nodes, their count fitting
/// the 4-byte prefix.
pub open spec fn spec_incl_representable(v: InclusionProofView) -> bool {
    &&& v.branch.len() <= u32::MAX
    &&& forall|i: int| 0 <= i < v.branch.len() ==> (#[trigger] v.branch[i]).len() == 32
}

/// A recursion-step input is representable by the codec.
pub open spec fn spec_input_representable(v: MohoRecursiveInputView) -> bool {
    &&& v.moho_predicate.wf()
    &&& match v.prev_recursive_proof {
        None => true,
        Some(tw) => spec_tw_representable(tw),
    }
    &&& spec_tw_representable(v.incremental_step_proof)
    &&& v.step_predicate.wf()
    &&& spec_incl_representable(v.step_predicate_merkle_proof)
}

/// A recursion-step output is representable by the codec.
pub open spec fn spec_output_representable(v: MohoRecursiveOutputView) -> bool {
    spec_transition_representable(v.transition) && v.moho_predicate.wf()
}

/// Decode a 4-byte little-endian count from the front of `s`.
pub open spec fn spec_decode_u32(s: Seq<u8>) -> Option<(u32, int)> {
    if s.len() < 4 {
        None
    } else {
        Some(
            (
                (s[0] as u32) | ((s[1] as u32) << 8) | ((s[2] as u32) << 16) | ((s[3] as u32)
                    << 24),
                4int,
            ),
        )
    }
}

/// Decode 32 raw bytes from the front of `s`.
pub open spec fn spec_decode_bytes32(s: Seq<u8>) -> Option<(Seq<u8>, int)> {
    if s.len() < 32 {
        None
    } else {
        Some((s.take(32), 32int))
    }
}

/// Decode a state-ref attestation from the front of `s`.
pub open spec fn spec_decode_ref_att(s: Seq<u8>) -> Option<(StateRefAttestationView, int)> {
    if s.len() < 64 {
        None
    } else {
        Some(
            (
                StateRefAttestationView { reference: s.take(32), commitment: s.subrange(32, 64) },
                64int,
            ),
        )
    }
}

/// Decode a transition from the front of `s`.
pub open spec fn spec_decode_transition(s: Seq<u8>) -> Option<(TransitionView, int)> {
    match spec_decode_ref_att(s) {
        None => None,
        Some((f, _)) => match spec_decode_ref_att(s.skip(64)) {
            None => None,
            Some((t, _)) => Some((TransitionView { from_state: f, to_state: t }, 128int)),
        },
    }
}

/// Decode a predicate key from the front of `s`.  A condition longer than
/// the protocol bound is rejected.
pub open spec fn spec_decode_predicate(s: Seq<u8>) -> Option<(PredicateKeyView, int)> {
    if s.len() < 1 {
        None
    } else {
        match spec_decode_u32(s.skip(1)) {
            None => None,
            Some((n, _)) => if n > MAX_CONDITION_SIZE as u32 || s.len() < 5 + n {
                None
            } else {
                Some((PredicateKeyView { kind: s[0], condition: s.subrange(5, 5 + n) }, 5 + n))
            },
        }
    }
}

/// Decode a length-prefixed byte buffer from the front of `s`.
pub open spec fn spec_decode_lenbytes(s: Seq<u8>) -> Option<(Seq<u8>, int)> {
    match spec_decode_u32(s) {
        None => None,
        Some((n, _)) => if s.len() < 4 + n {
            None
        } else {
            Some((s.subrange(4, 4 + n), 4 + n))
        },
    }
}

/// Decode a transition with its witness from the front of `s`.
pub open spec fn spec_decode_tw(s: Seq<u8>) -> Option<(TransitionWithProofView, int)> {
    match spec_decode_transition(s) {
        None => None,
        Some((t, _)) => match spec_decode_lenbytes(s.skip(128)) {
            None => None,
            Some((w, c)) => Some((TransitionWithProofView { transition: t, witness: w }, 128 + c)),
        },
    }
}

/// Decode an optional transition-with-witness from the front of `s`.
pub open spec fn spec_decode_opt_tw(s: Seq<u8>) -> Option<
    (Option<TransitionWithProofView>, int),
> {
    if s.len() < 1 {
        None
    } else if s[0] == 0 {
        Some((None, 1int))
    } else if s[0] == 1 {
        match spec_decode_tw(s.skip(1)) {
            None => None,
            Some((tw, c)) => Some((Some(tw), 1 + c)),
        }
    } else {
        None
    }
}

/// Decode a leaf-inclusion proof from the front of `s`.
pub open spec fn spec_decode_incl(s: Seq<u8>) -> Option<(InclusionProofView, int)> {
    match spec_decode_u32(s) {
        None => None,
        Some((n, _)) => if s.len() < 4 + 32 * n + 1 {
            None
        } else {
            Some(
                (
                    InclusionProofView {
                        branch: Seq::new(
                            n as nat,
                            |i: int| s.subrange(4 + 32 * i, 4 + 32 * i + 32),
                        ),
                        leaf_index: s[4 + 32 * n],
                    },
                    4 + 32 * n + 1,
                ),
            )
        },
    }
}

/// Decode a recursion-step input from the front of `s`.
pub open spec fn spec_decode_input(s: Seq<u8>) -> Option<(MohoRecursiveInputView, int)> {
    match spec_decode_predicate(s) {
        None => None,
        Some((moho, c1)) => match spec_decode_opt_tw(s.skip(c1)) {
            None => None,
            Some((prev, c2)) => match spec_decode_tw(s.skip(c1 + c2)) {
                None => None,
                Some((step, c3)) => match spec_decode_predicate(s.skip(c1 + c2 + c3)) {
                    None => None,
                    Some((sp, c4)) => match spec_decode_incl(s.skip(c1 + c2 + c3 + c4)) {
                        None => None,
                        Some((incl, c5)) => Some(
                            (
                                MohoRecursiveInputView {
                                    moho_predicate: moho,
                                    prev_recursive_proof: prev,
                                    incremental_step_proof: step,
                                    step_predicate: sp,
                                    step_predicate_merkle_proof: incl,
                                },
                                c1 + c2 + c3 + c4 + c5,
                            ),
                        ),
                    },
                },
            },
        },
    }
}

/// Decode a recursion-step output from the front of `s`.
pub open spec fn spec_decode_output(s: Seq<u8>) -> Option<(MohoRecursiveOutputView, int)> {
    match spec_decode_transition(s) {
        None => None,
        Some((t, c1)) => match spec_decode_predicate(s.skip(c1)) {
            None => None,
            Some((p, c2)) => Some(
                (MohoRecursiveOutputView { transition: t, moho_predicate: p }, c1 + c2),
            ),
        },
    }
}

/// Decode a recursion-step input from exactly the whole of `s`.
pub open spec fn spec_decode_input_exact(s: Seq<u8>) -> Option<MohoRecursiveInputView> {
    match spec_decode_input(s) {
        None => None,
        Some((v, c)) => if c == s.len() {
            Some(v)
        } else {
            None
        },
    }
}

/// Decode a recursion-step output from exactly the whole of `s`.
pub open spec fn spec_decode_output_exact(s: Seq<u8>) -> Option<MohoRecursiveOutputView> {
    match spec_decode_output(s) {
        None => None,
        Some((v, c)) => if c == s.len() {
            Some(v)
        } else {
            None
        },
    }
}

/// Decoding four little-endian bytes recovers the encoded count.
pub proof fn lemma_le32_roundtrip(n: u32, rest: Seq<u8>)
    ensures
        spec_decode_u32(spec_le32(n) + rest) == Some((n, 4int)),
{
    let s = spec_le32(n) + rest;
    let b0 = (n >> 0) as u8;
    let b1 = (n >> 8) as u8;
    let b2 = (n >> 16) as u8;
    let b3 = (n >> 24) as u8;
    assert(s[0] == b0 && s[1] == b1 && s[2] == b2 && s[3] == b3);
    assert((b0 as u32) | ((b1 as u32) << 8) | ((b2 as u32) << 16) | ((b3 as u32) << 24) == n)
        by (bit_vector)
        requires
            b0 == (n >> 0) as u8,
            b1 == (n >> 8) as u8,
            b2 == (n >> 16) as u8,
            b3 == (n >> 24) as u8,
    ;
}

/// Decoding the encoding of a state-ref attestation recovers it.
pub proof fn lemma_ref_att_roundtrip(v: StateRefAttestationView, rest: Seq<u8>)
    requires
        spec_ref_att_representable(v),
    ensures
        spec_decode_ref_att(spec_encode_ref_att(v) + rest) == Some((v, 64int)),
{
    let s = spec_encode_ref_att(v) + rest;
    assert(s.take(32) =~= v.reference);
    assert(s.subrange(32, 64) =~= v.commitment);
}

/// Decoding the encoding of a transition recovers it.
pub proof fn lemma_transition_roundtrip(v: TransitionView, rest: Seq<u8>)
    requires
        spec_transition_representable(v),
    ensures
        spec_decode_transition(spec_encode_transition(v) + rest) == Some((v, 128int)),
{
    let ea = spec_encode_ref_att(v.from_state);
    let eb = spec_encode_ref_att(v.to_state);
    let s = spec_encode_transition(v) + rest;
    assert(s =~= ea + (eb + rest));
    lemma_ref_att_roundtrip(v.from_state, eb + rest);
    assert(s.skip(64) =~= eb + rest);
    lemma_ref_att_roundtrip(v.to_state, rest);
}

/// Decoding the encoding of a predicate key recovers it.
pub proof fn lemma_predicate_roundtrip(p: PredicateKeyView, rest: Seq<u8>)
    requires
        p.wf(),
    ensures
        spec_decode_predicate(spec_encode_predicate(p) + rest) == Some(
            (p, spec_encode_predicate(p).len() as int),
        ),
{
    let n = p.condition.len() as u32;
    let s = spec_encode_predicate(p) + rest;
    assert(s[0] == p.kind);
    assert(s.skip(1) =~= spec_le32(n) + (p.condition + rest));
    lemma_le32_roundtrip(n, p.condition + rest);
    assert(s.len() >= 5 + n);
    assert(s.subrange(5, 5 + n as int) =~= p.condition);
    assert(spec_encode_predicate(p).len() == 5 + n);
}

/// Decoding the encoding of a length-prefixed buffer recovers it.
pub proof fn lemma_lenbytes_roundtrip(b: Seq<u8>, rest: Seq<u8>)
    requires
        b.len() <= u32::MAX,
    ensures
        spec_decode_lenbytes(spec_encode_lenbytes(b) + rest) == Some((b, 4 + b.len() as int)),
{
    let n = b.len() as u32;
    let s = spec_encode_lenbytes(b) + rest;
    assert(s =~= spec_le32(n) + (b + rest));
    lemma_le32_roundtrip(n, b + rest);
    assert(s.subrange(4, 4 + n as int) =~= b);
}

/// Decoding the encoding of a transition-with-witness recovers it.
pub proof fn lemma_tw_roundtrip(v: TransitionWithProofView, rest: Seq<u8>)
    requires
        spec_tw_representable(v),
    ensures
        spec_encode_tw(v).len() == 132 + v.witness.len(),
        spec_decode_tw(spec_encode_tw(v) + rest) == Some(
            (v, spec_encode_tw(v).len() as int),
        ),
{
    let et = spec_encode_transition(v.transition);
    let el = spec_encode_lenbytes(v.witness);
    let s = spec_encode_tw(v) + rest;
    assert(et.len() == 128);
    assert(s =~= et + (el + rest));
    lemma_transition_roundtrip(v.transition, el + rest);
    assert(s.skip(128) =~= el + rest);
    lemma_lenbytes_roundtrip(v.witness, rest);
}

/// Decoding the encoding of an optional transition-with-witness recovers it;
/// an absent value is distinguished from every present one.
pub proof fn lemma_opt_tw_roundtrip(o: Option<TransitionWithProofView>, rest: Seq<u8>)
    requires
        match o {
            None => true,
            Some(tw) => spec_tw_representable(tw),
        },
    ensures
        spec_decode_opt_tw(spec_encode_opt_tw(o) + rest) == Some(
            (o, spec_encode_opt_tw(o).len() as int),
        ),
{
    let s = spec_encode_opt_tw(o) + rest;
    match o {
        None => {
            assert(s[0] == 0u8);
        },
        Some(tw) => {
            assert(s[0] == 1u8);
            assert(s.skip(1) =~= spec_encode_tw(tw) + rest);
            lemma_tw_roundtrip(tw, rest);
            assert(spec_encode_opt_tw(o).len() == 1 + spec_encode_tw(tw).len());
        },
    }
}

/// The concatenation of 32-byte chunks has 32 bytes per chunk, each chunk
/// readable back at its offset.
proof fn lemma_concat_chunks_props(s: Seq<Seq<u8>>)
    requires
        forall|i: int| 0 <= i < s.len() ==> (#[trigger] s[i]).len() == 32,
    ensures
        spec_concat_chunks(s).len() == 32 * s.len(),
        forall|i: int|
            0 <= i < s.len() ==> #[trigger] spec_concat_chunks(s).subrange(32 * i, 32 * i + 32)
                == s[i],
    decreases s.len(),
{
    if s.len() > 0 {
        let tail = s.drop_first();
        lemma_concat_chunks_props(tail);
        let cc = spec_concat_chunks(s);
        let cct = spec_concat_chunks(tail);
        assert(cc == s[0] + cct);
        assert forall|i: int| 0 <= i < s.len() implies #[trigger] cc.subrange(32 * i, 32 * i + 32)
            == s[i] by {
            if i == 0 {
                assert(cc.subrange(0, 32) =~= s[0]);
            } else {
                assert(cct.subrange(32 * (i - 1), 32 * (i - 1) + 32) == tail[i - 1]);
                assert(cc.subrange(32 * i, 32 * i + 32) =~= cct.subrange(
                    32 * (i - 1),
                    32 * (i - 1) + 32,
                ));
                assert(tail[i - 1] == s[i]);
            }
        }
    }
}

/// Decoding the encoding of a leaf-inclusion proof recovers it.
pub proof fn lemma_incl_roundtrip(v: InclusionProofView, rest: Seq<u8>)
    requires
        spec_incl_representable(v),
    ensures
        spec_decode_incl(spec_encode_incl(v) + rest) == Some(
            (v, spec_encode_incl(v).len() as int),
        ),
{
    let n = v.branch.len() as u32;
    let cc = spec_concat_chunks(v.branch);
    lemma_concat_chunks_props(v.branch);
    let s = spec_encode_incl(v) + rest;
    assert(s =~= spec_le32(n) + ((cc + seq![v.leaf_index]) + rest));
    lemma_le32_roundtrip(n, (cc + seq![v.leaf_index]) + rest);
    assert(s.len() >= 4 + 32 * n + 1);
    assert(s[4 + 32 * n] == v.leaf_index);
    let branch = Seq::new(n as nat, |i: int| s.subrange(4 + 32 * i, 4 + 32 * i + 32));
    assert forall|i: int| 0 <= i < v.branch.len() implies branch[i] == v.branch[i] by {
        assert(s.subrange(4 + 32 * i, 4 + 32 * i + 32) =~= cc.subrange(32 * i, 32 * i + 32));
        assert(cc.subrange(32 * i, 32 * i + 32) == v.branch[i]);
    }
    assert(branch =~= v.branch);
    assert(spec_encode_incl(v).len() == 4 + 32 * n + 1);
}

/// Decoding the encoding of a recursion-step input recovers it.
#[verifier::rlimit(50)]
pub proof fn lemma_input_roundtrip(v: MohoRecursiveInputView, rest: Seq<u8>)
    requires
        spec_input_representable(v),
    ensures
        spec_decode_input(spec_encode_input(v) + rest) == Some(
            (v, spec_encode_input(v).len() as int),
        ),
{
    let e1 = spec_encode_predicate(v.moho_predicate);
    let e2 = spec_encode_opt_tw(v.prev_recursive_proof);
    let e3 = spec_encode_tw(v.incremental_step_proof);
    let e4 = spec_encode_predicate(v.step_predicate);
    let e5 = spec_encode_incl(v.step_predicate_merkle_proof);
    let s = spec_encode_input(v) + rest;
    assert(s =~= e1 + (e2 + (e3 + (e4 + (e5 + rest)))));
    lemma_predicate_roundtrip(v.moho_predicate, e2 + (e3 + (e4 + (e5 + rest))));
    assert(s.skip(e1.len() as int) =~= e2 + (e3 + (e4 + (e5 + rest))));
    lemma_opt_tw_roundtrip(v.prev_recursive_proof, e3 + (e4 + (e5 + rest)));
    assert(s.skip(e1.len() as int + e2.len()) =~= e3 + (e4 + (e5 + rest)));
    lemma_tw_roundtrip(v.incremental_step_proof, e4 + (e5 + rest));
    assert(s.skip(e1.len() as int + e2.len() + e3.len()) =~= e4 + (e5 + rest));
    lemma_predicate_roundtrip(v.step_predicate, e5 + rest);
    assert(s.skip(e1.len() as int + e2.len() + e3.len() + e4.len()) =~= e5 + rest);
    lemma_incl_roundtrip(v.step_predicate_merkle_proof, rest);
}

/// Decoding the encoding of a recursion-step output recovers it.
pub proof fn lemma_output_roundtrip(v: MohoRecursiveOutputView, rest: Seq<u8>)
    requires
        spec_output_representable(v),
    ensures
        spec_decode_output(spec_encode_output(v) + rest) == Some(
            (v, spec_encode_output(v).len() as int),
        ),
{
    let e1 = spec_encode_transition(v.transition);
    let e2 = spec_encode_predicate(v.moho_predicate);
    let s = spec_encode_output(v) + rest;
    assert(s =~= e1 + (e2 + rest));
    lemma_transition_roundtrip(v.transition, e2 + rest);
    assert(s.skip(128) =~= e2 + rest);
    lemma_predicate_roundtrip(v.moho_predicate, rest);
}

/// Encoding round-trip: decoding the encoding of any representable
/// recursion-step input yields exactly the value back.
pub proof fn lemma_input_codec_roundtrip(v: MohoRecursiveInputView)
    requires
        spec_input_representable(v),
    ensures
        spec_decode_input_exact(spec_encode_input(v)) == Some(v),
{
    lemma_input_roundtrip(v, Seq::empty());
    assert(spec_encode_input(v) + Seq::<u8>::empty() =~= spec_encode_input(v));
}

/// Encoding round-trip: decoding the encoding of any representable
/// recursion-step output yields exactly the value back.
pub proof fn lemma_output_codec_roundtrip(v: MohoRecursiveOutputView)
    requires
        spec_output_representable(v),
    ensures
        spec_decode_output_exact(spec_encode_output(v)) == Some(v),
{
    lemma_output_roundtrip(v, Seq::empty());
    assert(spec_encode_output(v) + Seq::<u8>::empty() =~= spec_encode_output(v));
}

/// Decode a 4-byte little-endian count at `pos`.
fn decode_u32(bytes: &[u8], pos: usize) -> (r: Option<(u32, usize)>)
    requires
        pos <= bytes@.len(),
    ensures
        match r {
            Some(p) => spec_decode_u32(bytes@.skip(pos as int)) == Some(
                (p.0, p.1 as int - pos as int),
            ) && pos <= p.1 <= bytes@.len(),
            None => spec_decode_u32(bytes@.skip(pos as int)) is None,
        },
{
    if bytes.len() - pos < 4 {
        return None;
    }
    let b0 = *vstd::slice::slice_index_get(bytes, pos);
    let b1 = *vstd::slice::slice_index_get(bytes, pos + 1);
    let b2 = *vstd::slice::slice_index_get(bytes, pos + 2);
    let b3 = *vstd::slice::slice_index_get(bytes, pos + 3);
    let n = (b0 as u32) | ((b1 as u32) << 8) | ((b2 as u32) << 16) | ((b3 as u32) << 24);
    proof {
        let s = bytes@.skip(pos as int);
        assert(s[0] == b0 && s[1] == b1 && s[2] == b2 && s[3] == b3);
    }
    Some((n, pos + 4))
}

/// Decode 32 raw bytes at `pos`.
fn decode_bytes32(bytes: &[u8], pos: usize) -> (r: Option<([u8; 32], usize)>)
    requires
        pos <= bytes@.len(),
    ensures
        match r {
            Some(p) => spec_decode_bytes32(bytes@.skip(pos as int)) == Some(
                (p.0@, p.1 as int - pos as int),
            ) && pos <= p.1 <= bytes@.len(),
            None => spec_decode_bytes32(bytes@.skip(pos as int)) is None,
        },
{
    if bytes.len() - pos < 32 {
        return None;
    }
    let mut a = [0u8; 32];
    let mut j: usize = 0;
    while j < 32
        invariant
            j <= 32,
            pos + 32 <= bytes@.len(),
            bytes@.len() <= usize::MAX,
            forall|k: int| 0 <= k < j ==> a@[k] == bytes@[pos + k],
        decreases 32 - j,
    {
        a[j] = *vstd::slice::slice_index_get(bytes, pos + j);
        j += 1;
    }
    proof {
        assert(a@ =~= bytes@.skip(pos as int).take(32));
    }
    Some((a, pos + 32))
}

/// Decode a state-ref attestation at `pos`.
fn decode_ref_att(bytes: &[u8], pos: usize) -> (r: Option<(StateRefAttestation, usize)>)
    requires
        pos <= bytes@.len(),
    ensures
        match r {
            Some(p) => spec_decode_ref_att(bytes@.skip(pos as int)) == Some(
                (p.0@, p.1 as int - pos as int),
            ) && pos <= p.1 <= bytes@.len(),
            None => spec_decode_ref_att(bytes@.skip(pos as int)) is None,
        },
{
    let ghost s = bytes@.skip(pos as int);
    let (ra, p1) = match decode_bytes32(bytes, pos) {
        Some(p) => p,
        None => {
            return None;
        },
    };
    let (rc, p2) = match decode_bytes32(bytes, p1) {
        Some(p) => p,
        None => {
            proof {
                assert(bytes@.skip(p1 as int).len() < 32);
            }
            return None;
        },
    };
    let att = StateRefAttestation::new(StateReference::new(ra), MohoStateCommitment::new(rc));
    proof {
        assert(rc@ == bytes@.skip(p1 as int).take(32));
        assert(bytes@.skip(p1 as int).take(32) =~= s.subrange(32, 64));
        assert(ra@ == s.take(32));
    }
    Some((att, p2))
}

/// Decode a transition at `pos`.
fn decode_transition(bytes: &[u8], pos: usize) -> (r: Option<(Transition, usize)>)
    requires
        pos <= bytes@.len(),
    ensures
        match r {
            Some(p) => spec_decode_transition(bytes@.skip(pos as int)) == Some(
                (p.0@, p.1 as int - pos as int),
            ) && pos <= p.1 <= bytes@.len(),
            None => spec_decode_transition(bytes@.skip(pos as int)) is None,
        },
{
    let ghost s = bytes@.skip(pos as int);
    let (f, p1) = match decode_ref_att(bytes, pos) {
        Some(p) => p,
        None => {
            return None;
        },
    };
    let (t, p2) = match decode_ref_att(bytes, p1) {
        Some(p) => p,
        None => {
            proof {
                assert(bytes@.skip(p1 as int) =~= s.skip(64));
            }
            return None;
        },
    };
    proof {
        assert(bytes@.skip(p1 as int) =~= s.skip(64));
    }
    Some((Transition::new(f, t), p2))
}

/// Decode a predicate key at `pos`.
fn decode_predicate(bytes: &[u8], pos: usize) -> (r: Option<(PredicateKey, usize)>)
    requires
        pos <= bytes@.len(),
    ensures
        match r {
            Some(p) => spec_decode_predicate(bytes@.skip(pos as int)) == Some(
                (p.0@, p.1 as int - pos as int),
            ) && pos <= p.1 <= bytes@.len(),
            None => spec_decode_predicate(bytes@.skip(pos as int)) is None,
        },
{
    let ghost s = bytes@.skip(pos as int);
    if bytes.len() - pos < 1 {
        return None;
    }
    let kind = *vstd::slice::slice_index_get(bytes, pos);
    let (n, p1) = match decode_u32(bytes, pos + 1) {
        Some(p) => p,
        None => {
            proof {
                assert(bytes@.skip(pos + 1) =~= s.skip(1));
            }
            return None;
        },
    };
    proof {
        assert(bytes@.skip(pos + 1) =~= s.skip(1));
    }
    if n > MAX_CONDITION_SIZE as u32 {
        return None;
    }
    if bytes.len() - p1 < n as usize {
        proof {
            assert(s.len() < 5 + n);
        }
        return None;
    }
    let mut condition: Vec<u8> = Vec::new();
    let mut j: usize = 0;
    while j < n as usize
        invariant
            j <= n as usize,
            p1 + n as usize <= bytes@.len(),
            bytes@.len() <= usize::MAX,
            condition@.len() == j,
            forall|k: int| 0 <= k < j ==> condition@[k] == bytes@[p1 + k],
        decreases n as usize - j,
    {
        condition.push(*vstd::slice::slice_index_get(bytes, p1 + j));
        j += 1;
    }
    proof {
        assert(condition@ =~= s.subrange(5, 5 + n as int));
        assert(s[0] == kind);
    }
    match PredicateKey::new(kind, condition) {
        Some(p) => Some((p, p1 + n as usize)),
        None => {
            proof {
                assert(false);
            }
            None
        },
    }
}

/// Decode a length-prefixed byte buffer at `pos`.
fn decode_lenbytes(bytes: &[u8], pos: usize) -> (r: Option<(Vec<u8>, usize)>)
    requires
        pos <= bytes@.len(),
    ensures
        match r {
            Some(p) => spec_decode_lenbytes(bytes@.skip(pos as int)) == Some(
                (p.0@, p.1 as int - pos as int),
            ) && pos <= p.1 <= bytes@.len(),
            None => spec_decode_lenbytes(bytes@.skip(pos as int)) is None,
        },
{
    let ghost s = bytes@.skip(pos as int);
    let (n, p1) = match decode_u32(bytes, pos) {
        Some(p) => p,
        None => {
            return None;
        },
    };
    if bytes.len() - p1 < n as usize {
        proof {
            assert(s.len() < 4 + n);
        }
        return None;
    }
    let mut b: Vec<u8> = Vec::new();
    let mut j: usize = 0;
    while j < n as usize
        invariant
            j <= n as usize,
            p1 + n as usize <= bytes@.len(),
            bytes@.len() <= usize::MAX,
            b@.len() == j,
            forall|k: int| 0 <= k < j ==> b@[k] == bytes@[p1 + k],
        decreases n as usize - j,
    {
        b.push(*vstd::slice::slice_index_get(bytes, p1 + j));
        j += 1;
    }
    proof {
        assert(b@ =~= s.subrange(4, 4 + n as int));
    }
    Some((b, p1 + n as usize))
}

/// Decode a transition-with-witness at `pos`.
fn decode_tw(bytes: &[u8], pos: usize) -> (r: Option<(MohoTransitionWithProof, usize)>)
    requires
        pos <= bytes@.len(),
    ensures
        match r {
            Some(p) => spec_decode_tw(bytes@.skip(pos as int)) == Some(
                (p.0@, p.1 as int - pos as int),
            ) && pos <= p.1 <= bytes@.len(),
            None => spec_decode_tw(bytes@.skip(pos as int)) is None,
        },
{
    let ghost s = bytes@.skip(pos as int);
    let (t, p1) = match decode_transition(bytes, pos) {
        Some(p) => p,
        None => {
            return None;
        },
    };
    let (w, p2) = match decode_lenbytes(bytes, p1) {
        Some(p) => p,
        None => {
            proof {
                assert(bytes@.skip(p1 as int) =~= s.skip(128));
            }
            return None;
        },
    };
    proof {
        assert(bytes@.skip(p1 as int) =~= s.skip(128));
    }
    Some((MohoTransitionWithProof::new(t, w), p2))
}

/// Decode an optional transition-with-witness at `pos`.
fn decode_opt_tw(bytes: &[u8], pos: usize) -> (r: Option<
    (Option<MohoTransitionWithProof>, usize),
>)
    requires
        pos <= bytes@.len(),
    ensures
        match r {
            Some(p) => (match p.0 {
                Some(tw) => spec_decode_opt_tw(bytes@.skip(pos as int)) == Some(
                    (Some(tw@), p.1 as int - pos as int),
                ),
                None => spec_decode_opt_tw(bytes@.skip(pos as int)) == Some(
                    (None::<TransitionWithProofView>, p.1 as int - pos as int),
                ),
            }) && pos <= p.1 <= bytes@.len(),
            None => spec_decode_opt_tw(bytes@.skip(pos as int)) is None,
        },
{
    let ghost s = bytes@.skip(pos as int);
    if bytes.len() - pos < 1 {
        return None;
    }
    let tag = *vstd::slice::slice_index_get(bytes, pos);
    proof {
        assert(s[0] == tag);
    }
    if tag == 0 {
        Some((None, pos + 1))
    } else if tag == 1 {
        let (tw, p1) = match decode_tw(bytes, pos + 1) {
            Some(p) => p,
            None => {
                proof {
                    assert(bytes@.skip(pos + 1) =~= s.skip(1));
                }
                return None;
            },
        };
        proof {
            assert(bytes@.skip(pos + 1) =~= s.skip(1));
        }
        Some((Some(tw), p1))
    } else {
        None
    }
}

/// Decode a leaf-inclusion proof at `pos`.
fn decode_incl(bytes: &[u8], pos: usize) -> (r: Option<(SszLeafInclusionProof, usize)>)
    requires
        pos <= bytes@.len(),
    ensures
        match r {
            Some(p) => spec_decode_incl(bytes@.skip(pos as int)) == Some(
                (p.0@, p.1 as int - pos as int),
            ) && pos <= p.1 <= bytes@.len(),
            None => spec_decode_incl(bytes@.skip(pos as int)) is None,
        },
{
    let ghost s = bytes@.skip(pos as int);
    let (n, p1) = match decode_u32(bytes, pos) {
        Some(p) => p,
        None => {
            return None;
        },
    };
    let rem = bytes.len() - p1;
    if rem < 1 || (rem - 1) / 32 < n as usize {
        proof {
            assert(s.len() == 4 + rem);
            assert((rem - 1) / 32 < n as int ==> rem - 1 < 32 * (n as int)) by (nonlinear_arith);
            assert(s.len() < 4 + 32 * n + 1);
        }
        return None;
    }
    proof {
        assert((rem - 1) / 32 >= n as int ==> rem - 1 >= 32 * (n as int)) by (nonlinear_arith);
        assert(s.len() >= 4 + 32 * n + 1);
    }
    let mut branch: Vec<[u8; 32]> = Vec::new();
    let mut j: usize = 0;
    let mut p = p1;
    while j < n as usize
        invariant
            j <= n as usize,
            p == p1 + 32 * j,
            p1 + 32 * (n as usize) + 1 <= bytes@.len(),
            branch@.len() == j,
            forall|k: int|
                0 <= k < j ==> branch@[k]@ == bytes@.subrange(
                    p1 + 32 * k,
                    p1 + 32 * k + 32,
                ),
        decreases n as usize - j,
    {
        let (chunk, p_next) = match decode_bytes32(bytes, p) {
            Some(c) => c,
            None => {
                proof {
                    assert(false);
                }
                return None;
            },
        };
        proof {
            assert(chunk@ == bytes@.skip(p as int).take(32));
            assert(bytes@.skip(p as int).take(32) =~= bytes@.subrange(
                p1 + 32 * (j as int),
                p1 + 32 * (j as int) + 32,
            ));
        }
        branch.push(chunk);
        p = p_next;
        j += 1;
    }
    let leaf_index = *vstd::slice::slice_index_get(bytes, p);
    let r = SszLeafInclusionProof { branch, leaf_index };
    proof {
        let expect = Seq::new(n as nat, |i: int| s.subrange(4 + 32 * i, 4 + 32 * i + 32));
        assert forall|i: int| 0 <= i < n as int implies r@.branch[i] == expect[i] by {
            assert(r@.branch[i] == bytes@.subrange(p1 + 32 * i, p1 + 32 * i + 32));
            assert(bytes@.subrange(p1 + 32 * i, p1 + 32 * i + 32) =~= s.subrange(
                4 + 32 * i,
                4 + 32 * i + 32,
            ));
        }
        assert(r@.branch =~= expect);
        assert(s[4 + 32 * (n as int)] == leaf_index);
    }
    Some((r, p + 1))
}

/// Decode a recursion-step input from exactly the whole of `bytes`.
pub fn decode_recursive_input(bytes: &[u8]) -> (r: Option<MohoRecursiveInput>)
    ensures
        match r {
            Some(v) => spec_decode_input_exact(bytes@) == Some(v@),
            None => spec_decode_input_exact(bytes@) is None,
        },
{
    proof {
        assert(bytes@.skip(0) =~= bytes@);
    }
    let (moho_predicate, p1) = match decode_predicate(bytes, 0) {
        Some(p) => p,
        None => {
            return None;
        },
    };
    let (prev_recursive_proof, p2) = match decode_opt_tw(bytes, p1) {
        Some(p) => p,
        None => {
            return None;
        },
    };
    let (incremental_step_proof, p3) = match decode_tw(bytes, p2) {
        Some(p) => p,
        None => {
            return None;
        },
    };
    let (step_predicate, p4) = match decode_predicate(bytes, p3) {
        Some(p) => p,
        None => {
            return None;
        },
    };
    let (step_predicate_merkle_proof, p5) = match decode_incl(bytes, p4) {
        Some(p) => p,
        None => {
            return None;
        },
    };
    if p5 != bytes.len() {
        return None;
    }
    let v = MohoRecursiveInput {
        moho_predicate,
        prev_recursive_proof,
        incremental_step_proof,
        step_predicate,
        step_predicate_merkle_proof,
    };
    Some(v)
}

/// Decode a recursion-step output from exactly the whole of `bytes`.
pub fn decode_recursive_output(bytes: &[u8]) -> (r: Option<MohoRecursiveOutput>)
    ensures
        match r {
            Some(v) => spec_decode_output_exact(bytes@) == Some(v@),
            None => spec_decode_output_exact(bytes@) is None,
        },
{
    proof {
        assert(bytes@.skip(0) =~= bytes@);
    }
    let (transition, p1) = match decode_transition(bytes, 0) {
        Some(p) => p,
        None => {
            return None;
        },
    };
    let (moho_predicate, p2) = match decode_predicate(bytes, p1) {
        Some(p) => p,
        None => {
            return None;
        },
    };
    if p2 != bytes.len() {
        return None;
    }
    Some(MohoRecursiveOutput { transition, moho_predicate })
}

} // verus!
