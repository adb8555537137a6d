//! Transaction objects and the roots that bind authorizations to payloads.

use vstd::prelude::*;
use vstd::string::StringSliceAdditionalSpecFns;

use crate::hashing::{
    copy_bytes, extend_bytes, extend_u64_be, lemma_count_framed_distinct, lemma_framed_distinct,
    sha256, spec_len_be, spec_sha256, spec_u64_be,
};
use crate::primitives::{ExecutionAddress, PrimitiveError, ProtocolObject, Root};

verus! {

/// A 256-bit unsigned integer in 32 bytes.
#[derive(Debug, Clone, Copy, PartialEq, Eq, Default)]
pub struct U256(pub [u8; 32]);

/// A chain identifier.
#[derive(Debug, Clone, Copy, PartialEq, Eq, Default)]
pub struct ChainId(pub U256);

/// A transferred value.
#[derive(Debug, Clone, Copy, PartialEq, Eq, Default)]
pub struct TxValue(pub U256);

/// A price per unit of gas.
#[derive(Debug, Clone, Copy, PartialEq, Eq, Default)]
pub struct GasPrice(pub U256);

/// The fees a basic payload offers per gas.
#[derive(Debug, Clone, Copy, PartialEq, Eq, Default)]
pub struct BasicFeesPerGas {
    pub regular: GasPrice,
    pub max_priority_fee_per_gas: GasPrice,
    pub max_witness_priority_fee: GasPrice,
}

/// A transfer or call payload.
#[derive(Debug, Clone, PartialEq, Eq, Default)]
pub struct BasicTransactionPayload {
    pub chain_id: ChainId,
    pub nonce: u64,
    pub gas_limit: u64,
    pub fees: BasicFeesPerGas,
    pub to: ExecutionAddress,
    pub value: TxValue,
    pub input: Vec<u8>,
    pub access_commitment: Root,
}

/// A contract-creation payload.
#[derive(Debug, Clone, PartialEq, Eq, Default)]
pub struct CreateTransactionPayload {
    pub chain_id: ChainId,
    pub nonce: u64,
    pub gas_limit: u64,
    pub fees: BasicFeesPerGas,
    pub value: TxValue,
    pub initcode: Vec<u8>,
    pub access_commitment: Root,
}

/// The payload union.
#[derive(Debug, Clone, PartialEq, Eq)]
pub enum TransactionPayload {
    Basic(BasicTransactionPayload),
    Create(CreateTransactionPayload),
}

/// A payload in the form carried by envelopes.
#[derive(Debug, Clone, PartialEq, Eq)]
pub struct TransactionPayloadSsz {
    pub inner: TransactionPayload,
}

impl TransactionPayloadSsz {
    /// Wraps a payload.
    pub fn new(payload: TransactionPayload) -> (wrapped: Self)
        ensures
            wrapped.inner == payload,
    {
        TransactionPayloadSsz { inner: payload }
    }

    /// The wrapped payload.
    pub fn payload(&self) -> (payload: &TransactionPayload)
        ensures
            *payload == self.inner,
    {
        &self.inner
    }
}

/// One signature over a payload root under a scheme.
#[derive(Debug, Clone, PartialEq, Eq)]
pub struct Authorization {
    pub scheme_id: u8,
    pub payload_root: Root,
    pub signature: Vec<u8>,
}

/// The executable transaction object: a payload and its authorizations.
#[derive(Debug, Clone, PartialEq, Eq)]
pub struct TransactionEnvelope {
    pub payload: TransactionPayloadSsz,
    pub authorizations: Vec<Authorization>,
}

/// The fee fields in order.
pub open spec fn spec_encode_fees(fees: BasicFeesPerGas) -> Seq<u8> {
    fees.regular.0.0@ + fees.max_priority_fee_per_gas.0.0@ + fees.max_witness_priority_fee.0.0@
}

/// The canonical byte encoding of a payload: a variant tag, then the fields
/// in declaration order, with variable-length fields prefixed by their
/// big-endian `u64` length.
pub open spec fn spec_encode_payload(payload: TransactionPayload) -> Seq<u8> {
    match payload {
        TransactionPayload::Basic(p) => seq![0u8] + p.chain_id.0.0@ + spec_u64_be(p.nonce)
            + spec_u64_be(p.gas_limit) + spec_encode_fees(p.fees) + p.to@ + p.value.0.0@
            + spec_len_be(p.input@.len()) + p.input@ + p.access_commitment@,
        TransactionPayload::Create(p) => seq![1u8] + p.chain_id.0.0@ + spec_u64_be(p.nonce)
            + spec_u64_be(p.gas_limit) + spec_encode_fees(p.fees) + p.value.0.0@ + spec_len_be(
            p.initcode@.len(),
        ) + p.initcode@ + p.access_commitment@,
    }
}

/// The domain tag of payload roots.
pub open spec fn payload_root_tag() -> Seq<u8> {
    "shell-primitives/payload-root-v1".spec_bytes()
}

/// The domain tag of envelope roots.
pub open spec fn envelope_root_tag() -> Seq<u8> {
    "shell-primitives/envelope-root-v1".spec_bytes()
}

/// The root that authorizations sign.
pub open spec fn spec_payload_root(payload: TransactionPayload) -> Seq<u8> {
    spec_sha256(payload_root_tag() + spec_encode_payload(payload))
}

/// The framing of one authorization.
pub open spec fn spec_encode_authorization(auth: Authorization) -> Seq<u8> {
    seq![auth.scheme_id] + auth.payload_root@ + spec_len_be(auth.signature@.len())
        + auth.signature@
}

/// The framing of the first `n` authorizations.
pub open spec fn spec_encode_authorizations(auths: Seq<Authorization>, n: nat) -> Seq<u8>
    decreases n,
{
    if n == 0 || n > auths.len() {
        Seq::empty()
    } else {
        spec_encode_authorizations(auths, (n - 1) as nat) + spec_encode_authorization(
            auths[n - 1],
        )
    }
}

/// The root of an envelope: its payload root, the authorization count and
/// each authorization in order.
pub open spec fn spec_envelope_root(envelope: TransactionEnvelope) -> Seq<u8> {
    spec_sha256(
        envelope_root_tag() + spec_payload_root(envelope.payload.inner) + spec_len_be(
            envelope.authorizations@.len(),
        ) + spec_encode_authorizations(
            envelope.authorizations@,
            envelope.authorizations@.len(),
        ),
    )
}

/// Authorization lists that agree on their first `k` entries frame them
/// alike.
proof fn lemma_encode_authorizations_agree(first: Seq<Authorization>, second: Seq<Authorization>, k: nat)
    requires
        k <= first.len(),
        k <= second.len(),
        forall|i: int| 0 <= i < k ==> first[i] == second[i],
    ensures
        spec_encode_authorizations(first, k) == spec_encode_authorizations(second, k),
    decreases k,
{
    if k > 0 {
        lemma_encode_authorizations_agree(first, second, (k - 1) as nat);
        assert(first[k - 1] == second[k - 1]);
    }
}

/// The framing of the first `n` authorizations extends that of the first
/// `k`.
proof fn lemma_encode_authorizations_split(auths: Seq<Authorization>, k: nat, n: nat) -> (rest: Seq<
    u8,
>)
    requires
        k <= n <= auths.len(),
    ensures
        spec_encode_authorizations(auths, n) == spec_encode_authorizations(auths, k) + rest,
    decreases n,
{
    if n == k {
        assert(spec_encode_authorizations(auths, n) =~= spec_encode_authorizations(auths, k)
            + Seq::empty());
        Seq::empty()
    } else {
        let before = lemma_encode_authorizations_split(auths, k, (n - 1) as nat);
        let last = spec_encode_authorization(auths[n - 1]);
        assert(spec_encode_authorizations(auths, n) =~= spec_encode_authorizations(auths, k) + (
        before + last));
        before + last
    }
}

/// An envelope root commits to its authorizations: envelopes with one
/// payload whose authorization counts differ, or whose authorizations
/// differ only in the signature bytes of one of them, have roots that are
/// digests of different byte strings. So swapping or stripping a signature
/// moves the envelope root unless SHA-256 collides.
pub proof fn lemma_envelope_root_commits_to_authorizations(
    first: TransactionEnvelope,
    second: TransactionEnvelope,
    k: int,
)
    requires
        first.payload.inner == second.payload.inner,
        first.authorizations@.len() <= u64::MAX,
        second.authorizations@.len() <= u64::MAX,
        first.authorizations@.len() != second.authorizations@.len() || ({
            let a = first.authorizations@;
            let b = second.authorizations@;
            &&& a.len() == b.len()
            &&& 0 <= k < a.len()
            &&& forall|i: int| 0 <= i < a.len() && i != k ==> a[i] == b[i]
            &&& a[k].scheme_id == b[k].scheme_id
            &&& a[k].payload_root == b[k].payload_root
            &&& a[k].signature@ != b[k].signature@
            &&& a[k].signature@.len() <= u64::MAX
            &&& b[k].signature@.len() <= u64::MAX
        }),
    ensures
        exists|p1: Seq<u8>, p2: Seq<u8>|
            #![trigger spec_sha256(p1), spec_sha256(p2)]
            spec_envelope_root(first) == spec_sha256(p1) && spec_envelope_root(second)
                == spec_sha256(p2) && p1 != p2,
{
    let a = first.authorizations@;
    let b = second.authorizations@;
    let head = envelope_root_tag() + spec_payload_root(first.payload.inner);
    let e1 = spec_encode_authorizations(a, a.len());
    let e2 = spec_encode_authorizations(b, b.len());
    let p1 = head + spec_len_be(a.len()) + e1;
    let p2 = head + spec_len_be(b.len()) + e2;
    assert(spec_envelope_root(first) == spec_sha256(p1));
    assert(spec_envelope_root(second) == spec_sha256(p2));
    if a.len() != b.len() {
        lemma_count_framed_distinct(head, a.len(), b.len(), e1, e2);
    } else {
        lemma_encode_authorizations_agree(a, b, k as nat);
        let rest1 = lemma_encode_authorizations_split(a, (k + 1) as nat, a.len());
        let rest2 = lemma_encode_authorizations_split(b, (k + 1) as nat, b.len());
        let prefix = head + spec_len_be(a.len()) + spec_encode_authorizations(a, k as nat)
            + seq![a[k].scheme_id] + a[k].payload_root@;
        assert(p1 =~= prefix + spec_len_be(a[k].signature@.len()) + a[k].signature@ + rest1);
        assert(p2 =~= prefix + spec_len_be(b[k].signature@.len()) + b[k].signature@ + rest2);
        lemma_framed_distinct(prefix, a[k].signature@, b[k].signature@, rest1, rest2);
    }
}

fn encode_fees(bytes: &mut Vec<u8>, fees: &BasicFeesPerGas)
    ensures
        final(bytes)@ == old(bytes)@ + spec_encode_fees(*fees),
{
    let ghost start = bytes@;
    extend_bytes(bytes, fees.regular.0.0.as_slice());
    extend_bytes(bytes, fees.max_priority_fee_per_gas.0.0.as_slice());
    extend_bytes(bytes, fees.max_witness_priority_fee.0.0.as_slice());
    assert(bytes@ =~= start + spec_encode_fees(*fees));
}

/// Encodes a payload canonically.
pub fn encode_payload(payload: &TransactionPayload) -> (encoded: Vec<u8>)
    ensures
        encoded@ == spec_encode_payload(*payload),
{
    let mut bytes: Vec<u8> = Vec::new();
    match payload {
        TransactionPayload::Basic(p) => {
            bytes.push(0u8);
            extend_bytes(&mut bytes, p.chain_id.0.0.as_slice());
            extend_u64_be(&mut bytes, p.nonce);
            extend_u64_be(&mut bytes, p.gas_limit);
            encode_fees(&mut bytes, &p.fees);
            extend_bytes(&mut bytes, p.to.as_slice());
            extend_bytes(&mut bytes, p.value.0.0.as_slice());
            extend_u64_be(&mut bytes, p.input.len() as u64);
            extend_bytes(&mut bytes, p.input.as_slice());
            extend_bytes(&mut bytes, p.access_commitment.as_slice());
        },
        TransactionPayload::Create(p) => {
            bytes.push(1u8);
            extend_bytes(&mut bytes, p.chain_id.0.0.as_slice());
            extend_u64_be(&mut bytes, p.nonce);
            extend_u64_be(&mut bytes, p.gas_limit);
            encode_fees(&mut bytes, &p.fees);
            extend_bytes(&mut bytes, p.value.0.0.as_slice());
            extend_u64_be(&mut bytes, p.initcode.len() as u64);
            extend_bytes(&mut bytes, p.initcode.as_slice());
            extend_bytes(&mut bytes, p.access_commitment.as_slice());
        },
    }
    assert(bytes@ =~= spec_encode_payload(*payload));
    bytes
}

/// Computes the root that authorizations of `payload` sign.
pub fn compute_payload_root(payload: &TransactionPayload) -> (root: Root)
    ensures
        root@ == spec_payload_root(*payload),
{
    let mut bytes: Vec<u8> = Vec::new();
    extend_bytes(&mut bytes, "shell-primitives/payload-root-v1".as_bytes());
    let encoded = encode_payload(payload);
    extend_bytes(&mut bytes, encoded.as_slice());
    sha256(bytes.as_slice())
}

impl TransactionEnvelope {
    /// The root that this envelope's authorizations must sign.
    pub fn payload_root(&self) -> (root: Result<Root, PrimitiveError>)
        ensures
            root matches Ok(r) && r@ == spec_payload_root(self.payload.inner),
    {
        Ok(compute_payload_root(&self.payload.inner))
    }

    /// The envelope's canonical root.
    pub fn canonical_root(&self) -> (root: Result<Root, PrimitiveError>)
        ensures
            root matches Ok(r) && r@ == spec_envelope_root(*self),
    {
        let mut bytes: Vec<u8> = Vec::new();
        extend_bytes(&mut bytes, "shell-primitives/envelope-root-v1".as_bytes());
        let payload_root = compute_payload_root(&self.payload.inner);
        extend_bytes(&mut bytes, payload_root.as_slice());
        extend_u64_be(&mut bytes, self.authorizations.len() as u64);
        let ghost prefix = bytes@;
        let mut i: usize = 0;
        while i < self.authorizations.len()
            invariant
                0 <= i <= self.authorizations@.len(),
                bytes@ == prefix + spec_encode_authorizations(self.authorizations@, i as nat),
            decreases self.authorizations@.len() - i,
        {
            let auth = &self.authorizations[i];
            let ghost before = bytes@;
            bytes.push(auth.scheme_id);
            extend_bytes(&mut bytes, auth.payload_root.as_slice());
            extend_u64_be(&mut bytes, auth.signature.len() as u64);
            extend_bytes(&mut bytes, auth.signature.as_slice());
            assert(bytes@ =~= before + spec_encode_authorization(*auth));
            assert(spec_encode_authorizations(self.authorizations@, (i + 1) as nat)
                == spec_encode_authorizations(self.authorizations@, i as nat)
                + spec_encode_authorization(self.authorizations@[i as int]));
            i += 1;
        }
        Ok(sha256(bytes.as_slice()))
    }
}

impl ProtocolObject for TransactionEnvelope {
    open spec fn spec_canonical_root(&self) -> Result<Seq<u8>, PrimitiveError> {
        Ok(spec_envelope_root(*self))
    }

    fn canonical_root(&self) -> (root: Result<Root, PrimitiveError>) {
        TransactionEnvelope::canonical_root(self)
    }
}

/// Whether two payloads hold the same fields.
pub open spec fn same_payload(a: TransactionPayload, b: TransactionPayload) -> bool {
    match (a, b) {
        (TransactionPayload::Basic(x), TransactionPayload::Basic(y)) => x.chain_id == y.chain_id
            && x.nonce == y.nonce && x.gas_limit == y.gas_limit && x.fees == y.fees && x.to == y.to
            && x.value == y.value && x.input@ == y.input@ && x.access_commitment
            == y.access_commitment,
        (TransactionPayload::Create(x), TransactionPayload::Create(y)) => x.chain_id == y.chain_id
            && x.nonce == y.nonce && x.gas_limit == y.gas_limit && x.fees == y.fees && x.value
            == y.value && x.initcode@ == y.initcode@ && x.access_commitment == y.access_commitment,
        _ => false,
    }
}

/// Whether two authorizations hold the same fields.
pub open spec fn same_authorization(a: Authorization, b: Authorization) -> bool {
    a.scheme_id == b.scheme_id && a.payload_root == b.payload_root && a.signature@ == b.signature@
}

/// Whether two envelopes hold the same payload and authorizations.
pub open spec fn same_envelope(a: TransactionEnvelope, b: TransactionEnvelope) -> bool {
    &&& same_payload(a.payload.inner, b.payload.inner)
    &&& a.authorizations@.len() == b.authorizations@.len()
    &&& forall|i: int|
        0 <= i < a.authorizations@.len() ==> same_authorization(
            #[trigger] a.authorizations@[i],
            b.authorizations@[i],
        )
}

/// A fresh copy of a payload.
pub fn copy_payload(payload: &TransactionPayload) -> (copy: TransactionPayload)
    ensures
        same_payload(copy, *payload),
{
    match payload {
        TransactionPayload::Basic(p) => TransactionPayload::Basic(
            BasicTransactionPayload {
                chain_id: p.chain_id,
                nonce: p.nonce,
                gas_limit: p.gas_limit,
                fees: p.fees,
                to: p.to,
                value: p.value,
                input: copy_bytes(p.input.as_slice()),
                access_commitment: p.access_commitment,
            },
        ),
        TransactionPayload::Create(p) => TransactionPayload::Create(
            CreateTransactionPayload {
                chain_id: p.chain_id,
                nonce: p.nonce,
                gas_limit: p.gas_limit,
                fees: p.fees,
                value: p.value,
                initcode: copy_bytes(p.initcode.as_slice()),
                access_commitment: p.access_commitment,
            },
        ),
    }
}

/// A fresh copy of an authorization.
pub fn copy_authorization(authorization: &Authorization) -> (copy: Authorization)
    ensures
        same_authorization(copy, *authorization),
{
    Authorization {
        scheme_id: authorization.scheme_id,
        payload_root: authorization.payload_root,
        signature: copy_bytes(authorization.signature.as_slice()),
    }
}

/// A fresh copy of an envelope.
pub fn copy_envelope(envelope: &TransactionEnvelope) -> (copy: TransactionEnvelope)
    ensures
        same_envelope(copy, *envelope),
{
    let mut authorizations: Vec<Authorization> = Vec::new();
    let mut i: usize = 0;
    while i < envelope.authorizations.len()
        invariant
            0 <= i <= envelope.authorizations@.len(),
            authorizations@.len() == i,
            forall|j: int|
                0 <= j < i ==> same_authorization(
                    #[trigger] authorizations@[j],
                    envelope.authorizations@[j],
                ),
        decreases envelope.authorizations@.len() - i,
    {
        authorizations.push(copy_authorization(&envelope.authorizations[i]));
        i += 1;
    }
    TransactionEnvelope {
        payload: TransactionPayloadSsz::new(copy_payload(&envelope.payload.inner)),
        authorizations,
    }
}

/// Envelopes with the same fields have the same payload root and canonical
/// root.
pub proof fn lemma_same_envelope_same_roots(a: TransactionEnvelope, b: TransactionEnvelope)
    requires
        same_envelope(a, b),
    ensures
        spec_payload_root(a.payload.inner) == spec_payload_root(b.payload.inner),
        spec_envelope_root(a) == spec_envelope_root(b),
{
    assert(spec_encode_payload(a.payload.inner) =~= spec_encode_payload(b.payload.inner));
    lemma_same_authorizations_encode(a.authorizations@, b.authorizations@, a.authorizations@.len());
}

proof fn lemma_same_authorizations_encode(a: Seq<Authorization>, b: Seq<Authorization>, n: nat)
    requires
        a.len() == b.len(),
        n <= a.len(),
        forall|i: int| 0 <= i < a.len() ==> same_authorization(#[trigger] a[i], b[i]),
    ensures
        spec_encode_authorizations(a, n) == spec_encode_authorizations(b, n),
    decreases n,
{
    if n > 0 {
        lemma_same_authorizations_encode(a, b, (n - 1) as nat);
        assert(same_authorization(a[n - 1], b[n - 1]));
        assert(spec_encode_authorization(a[n - 1]) =~= spec_encode_authorization(b[n - 1]));
    }
}

} // verus!
