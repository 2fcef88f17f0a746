//! Schnorr proofs of knowledge over the Ristretto group, made non-interactive by hashing.
//! Scalars are held as their 32 little-endian bytes and points as their 32-byte compressed
//! encodings; the group arithmetic and the hash are those of `curve25519-dalek` and `sha2`.
use vstd::prelude::*;
use curve25519_dalek::constants::RISTRETTO_BASEPOINT_POINT;
use curve25519_dalek::ristretto::CompressedRistretto;
use curve25519_dalek::scalar::Scalar;
use rand_core::OsRng;
use sha2::{Digest, Sha512};

verus! {

/// The order of the Ristretto group: `2^252 + 27742317777372353535851937790883648493`.
pub open spec fn group_order() -> nat {
    vstd::arithmetic::power2::pow2(252) + 27742317777372353535851937790883648493nat
}

/// The number that bytes write in little-endian order.
pub open spec fn le_value(b: Seq<u8>) -> nat
    decreases b.len(),
{
    if b.len() == 0 {
        0
    } else {
        (b[0] as nat) + 256 * le_value(b.drop_first())
    }
}

/// The 32 little-endian bytes of a number below `2^256`.
pub open spec fn scalar_bytes(v: nat) -> Seq<u8>
    decreases 32nat,
{
    le_bytes_of(v, 32)
}

/// The first `n` little-endian bytes of a number.
pub open spec fn le_bytes_of(v: nat, n: nat) -> Seq<u8>
    decreases n,
{
    if n == 0 {
        Seq::empty()
    } else {
        seq![(v % 256) as u8] + le_bytes_of(v / 256, (n - 1) as nat)
    }
}

/// SHA-512 of a byte string.
pub uninterp spec fn sha512(data: Seq<u8>) -> Seq<u8>;

/// The compressed encoding of the base point times a scalar.
pub uninterp spec fn base_mul(s: Seq<u8>) -> Seq<u8>;

/// Whether 32 bytes are the encoding of a group element.
pub uninterp spec fn valid_point(p: Seq<u8>) -> bool;

/// The compressed encoding of a point times a scalar.
pub uninterp spec fn point_mul(p: Seq<u8>, s: Seq<u8>) -> Seq<u8>;

/// The compressed encoding of the sum of two points.
pub uninterp spec fn point_add(p: Seq<u8>, q: Seq<u8>) -> Seq<u8>;

/// SHA-512 of a byte string. Calls `Sha512::digest`; the contract names its result, which
/// depends on the bytes alone.
#[verifier::external_body]
fn sha512_digest(data: &[u8]) -> (r: [u8; 64])
    ensures
        r@ == sha512(data@),
{
    Sha512::digest(data).into()
}

/// A 512-bit little-endian number reduced modulo the group order. Calls
/// `Scalar::from_bytes_mod_order_wide`, whose documentation says exactly that; the result is
/// returned as its canonical 32 bytes.
#[verifier::external_body]
fn reduce_wide(bytes: &[u8; 64]) -> (r: [u8; 32])
    ensures
        r@ == scalar_bytes(le_value(bytes@) % group_order()),
{
    Scalar::from_bytes_mod_order_wide(bytes).to_bytes()
}

/// A uniformly random scalar. Calls `Scalar::random` with the operating system's generator; the
/// contract says only that the result is a canonical scalar, as every outcome is.
#[verifier::external_body]
fn random_scalar() -> (r: [u8; 32])
    ensures
        le_value(r@) < group_order(),
{
    Scalar::random(&mut OsRng).to_bytes()
}

/// The sum of two scalars modulo the group order. Calls the `+` of `Scalar` on the scalars
/// that `Scalar::from_bytes_mod_order` reads from the bytes.
#[verifier::external_body]
fn scalar_add(a: &[u8; 32], b: &[u8; 32]) -> (r: [u8; 32])
    ensures
        r@ == scalar_bytes((le_value(a@) + le_value(b@)) % group_order()),
{
    (Scalar::from_bytes_mod_order(*a) + Scalar::from_bytes_mod_order(*b)).to_bytes()
}

/// The product of two scalars modulo the group order. Calls the `*` of `Scalar` on the
/// scalars that `Scalar::from_bytes_mod_order` reads from the bytes.
#[verifier::external_body]
fn scalar_mul(a: &[u8; 32], b: &[u8; 32]) -> (r: [u8; 32])
    ensures
        r@ == scalar_bytes((le_value(a@) * le_value(b@)) % group_order()),
{
    (Scalar::from_bytes_mod_order(*a) * Scalar::from_bytes_mod_order(*b)).to_bytes()
}

/// The base point times a scalar, compressed. Calls `RistrettoPoint * Scalar` on
/// `RISTRETTO_BASEPOINT_POINT`; the contract names the result, and says that a compressed
/// point is a valid encoding.
#[verifier::external_body]
fn mul_base(s: &[u8; 32]) -> (r: [u8; 32])
    ensures
        r@ == base_mul(s@),
        valid_point(r@),
{
    (RISTRETTO_BASEPOINT_POINT * Scalar::from_bytes_mod_order(*s)).compress().to_bytes()
}

/// Whether 32 bytes encode a group element. Calls `CompressedRistretto::decompress`.
#[verifier::external_body]
fn is_valid_point(p: &[u8; 32]) -> (r: bool)
    ensures
        r == valid_point(p@),
{
    CompressedRistretto(*p).decompress().is_some()
}

/// A point times a scalar, compressed. Calls `RistrettoPoint * Scalar` on the decompressed
/// point.
#[verifier::external_body]
fn mul_point(p: &[u8; 32], s: &[u8; 32]) -> (r: [u8; 32])
    requires
        valid_point(p@),
    ensures
        r@ == point_mul(p@, s@),
        valid_point(r@),
{
    let q = CompressedRistretto(*p).decompress().unwrap();
    (q * Scalar::from_bytes_mod_order(*s)).compress().to_bytes()
}

/// The sum of two points, compressed. Calls `RistrettoPoint + RistrettoPoint` on the
/// decompressed points.
#[verifier::external_body]
fn add_points(p: &[u8; 32], q: &[u8; 32]) -> (r: [u8; 32])
    requires
        valid_point(p@),
        valid_point(q@),
    ensures
        r@ == point_add(p@, q@),
{
    let a = CompressedRistretto(*p).decompress().unwrap();
    let b = CompressedRistretto(*q).decompress().unwrap();
    (a + b).compress().to_bytes()
}

/// A proof that the holder of the secret behind `public_key` vouched for a statement.
#[derive(Debug, Clone, Copy, PartialEq, Eq)]
pub struct SchnorrProof {
    pub public_key: [u8; 32],
    pub commitment: [u8; 32],
    pub response: [u8; 32],
}

/// The domain separator of the challenge hash.
pub open spec fn domain() -> Seq<u8> {
    vstd::utf8::encode_utf8("FinLang/Schnorr/FS/v1"@)
}

/// The challenge: the hash of the domain separator, the public key, the commitment and the
/// statement, reduced to a scalar.
pub open spec fn spec_challenge(public_key: Seq<u8>, commitment: Seq<u8>, statement: Seq<u8>) -> Seq<u8> {
    scalar_bytes(le_value(sha512(domain() + public_key + commitment + statement)) % group_order())
}

fn append(out: &mut Vec<u8>, data: &[u8])
    ensures
        final(out)@ == old(out)@ + data@,
{
    let mut i: usize = 0;
    while i < data.len()
        invariant
            i <= data@.len(),
            out@ == old(out)@ + data@.take(i as int),
        decreases data@.len() - i,
    {
        out.push(data[i]);
        assert(old(out)@ + data@.take(i + 1) =~= (old(out)@ + data@.take(i as int)).push(data@[i as int]));
        i = i + 1;
    }
    assert(data@.take(data@.len() as int) =~= data@);
}

fn challenge(public_key: &[u8; 32], commitment: &[u8; 32], statement: &[u8]) -> (r: [u8; 32])
    ensures
        r@ == spec_challenge(public_key@, commitment@, statement@),
{
    let mut msg: Vec<u8> = Vec::new();
    append(&mut msg, "FinLang/Schnorr/FS/v1".as_bytes());
    append(&mut msg, public_key);
    append(&mut msg, commitment);
    append(&mut msg, statement);
    assert(msg@ =~= domain() + public_key@ + commitment@ + statement@);
    let h = sha512_digest(msg.as_slice());
    reduce_wide(&h)
}

/// A fresh secret scalar and its public key.
pub fn generate_keypair() -> (r: ([u8; 32], [u8; 32]))
    ensures
        le_value(r.0@) < group_order(),
        r.1@ == base_mul(r.0@),
{
    let secret = random_scalar();
    let public = mul_base(&secret);
    (secret, public)
}

/// The proof made with a given nonce: the commitment is the base point times the nonce, and
/// the response is the nonce plus the challenge times the secret.
pub open spec fn spec_prove(secret: Seq<u8>, nonce: Seq<u8>, statement: Seq<u8>) -> (Seq<u8>, Seq<u8>, Seq<u8>) {
    let public = base_mul(secret);
    let commitment = base_mul(nonce);
    let c = spec_challenge(public, commitment, statement);
    let cs = scalar_bytes((le_value(c) * le_value(secret)) % group_order());
    (public, commitment, scalar_bytes((le_value(nonce) + le_value(cs)) % group_order()))
}

/// Proves knowledge of a secret with a given nonce.
pub fn prove_with_nonce(secret: &[u8; 32], nonce: &[u8; 32], statement: &[u8]) -> (p: SchnorrProof)
    ensures
        (p.public_key@, p.commitment@, p.response@) == spec_prove(secret@, nonce@, statement@),
{
    let public_key = mul_base(secret);
    let commitment = mul_base(nonce);
    let c = challenge(&public_key, &commitment, statement);
    let cs = scalar_mul(&c, secret);
    let response = scalar_add(nonce, &cs);
    SchnorrProof { public_key, commitment, response }
}

/// Proves knowledge of a secret, with a fresh random nonce.
pub fn prove(secret: &[u8; 32], statement: &[u8]) -> (p: SchnorrProof)
    ensures
        exists|nonce: Seq<u8>|
            nonce.len() == 32 && le_value(nonce) < group_order() && (p.public_key@, p.commitment@, p.response@)
                == spec_prove(secret@, nonce, statement@),
{
    let nonce = random_scalar();
    assert(nonce@.len() == 32);
    prove_with_nonce(secret, &nonce, statement)
}

/// Whether a proof holds for a statement: both points are valid, and the base point times the
/// response is the commitment plus the public key times the challenge.
pub open spec fn spec_verify_proof(public_key: Seq<u8>, commitment: Seq<u8>, response: Seq<u8>, statement: Seq<u8>) -> bool {
    &&& valid_point(public_key)
    &&& valid_point(commitment)
    &&& base_mul(response) == point_add(
        commitment,
        point_mul(public_key, spec_challenge(public_key, commitment, statement)),
    )
}

/// Checks a proof against a statement.
pub fn verify(proof: &SchnorrProof, statement: &[u8]) -> (r: bool)
    ensures
        r == spec_verify_proof(proof.public_key@, proof.commitment@, proof.response@, statement@),
{
    if !is_valid_point(&proof.public_key) {
        return false;
    }
    if !is_valid_point(&proof.commitment) {
        return false;
    }
    let c = challenge(&proof.public_key, &proof.commitment, statement);
    let lhs = mul_base(&proof.response);
    let pc = mul_point(&proof.public_key, &c);
    let rhs = add_points(&proof.commitment, &pc);
    bytes_equal(&lhs, &rhs)
}

fn bytes_equal(a: &[u8; 32], b: &[u8; 32]) -> (r: bool)
    ensures
        r == (a@ == b@),
{
    let mut i: usize = 0;
    while i < 32
        invariant
            i <= 32,
            a@.len() == 32,
            b@.len() == 32,
            forall|j: int| 0 <= j < i ==> a@[j] == b@[j],
        decreases 32 - i,
    {
        if a[i] != b[i] {
            return false;
        }
        i = i + 1;
    }
    assert(a@ =~= b@);
    true
}

// ---------------------------------------------------------------------------------------------
// An honest proof verifies.

/// The laws of the Ristretto group as the named operations see them: every multiple of the
/// base point is a valid encoding; the base point's multiple of a sum of scalars is the sum of
/// their multiples; and multiplying the base point's multiple of `x` by `c` gives its multiple
/// of `c * x`, all modulo the group order. They hold of `curve25519-dalek`, whose group has
/// prime order and whose encoding is canonical, but no contract of its calls states them.
pub open spec fn group_laws() -> bool {
    &&& forall|a: Seq<u8>| a.len() == 32 ==> valid_point(#[trigger] base_mul(a))
    &&& forall|a: Seq<u8>, b: Seq<u8>|
        #![trigger point_add(base_mul(a), base_mul(b))]
        a.len() == 32 && b.len() == 32 ==> base_mul(scalar_bytes((le_value(a) + le_value(b)) % group_order()))
            == point_add(base_mul(a), base_mul(b))
    &&& forall|x: Seq<u8>, c: Seq<u8>|
        #![trigger point_mul(base_mul(x), c)]
        x.len() == 32 && c.len() == 32 ==> point_mul(base_mul(x), c) == base_mul(
            scalar_bytes((le_value(c) * le_value(x)) % group_order()),
        )
}

proof fn lemma_le_bytes_len(v: nat, n: nat)
    ensures
        le_bytes_of(v, n).len() == n,
    decreases n,
{
    if n > 0 {
        lemma_le_bytes_len(v / 256, (n - 1) as nat);
    }
}

/// Given the group laws, a proof made for a statement with any nonce verifies for that
/// statement.
pub proof fn law_honest_proof_verifies(secret: Seq<u8>, nonce: Seq<u8>, statement: Seq<u8>)
    requires
        group_laws(),
        secret.len() == 32,
        nonce.len() == 32,
    ensures
        ({
            let (public_key, commitment, response) = spec_prove(secret, nonce, statement);
            spec_verify_proof(public_key, commitment, response, statement)
        }),
{
    let public = base_mul(secret);
    let commitment = base_mul(nonce);
    let c = spec_challenge(public, commitment, statement);
    let cs = scalar_bytes((le_value(c) * le_value(secret)) % group_order());
    lemma_le_bytes_len(le_value(sha512(domain() + public + commitment + statement)) % group_order(), 32);
    lemma_le_bytes_len((le_value(c) * le_value(secret)) % group_order(), 32);
    assert(valid_point(public));
    assert(valid_point(commitment));
    assert(point_mul(base_mul(secret), c) == base_mul(cs));
    assert(point_add(base_mul(nonce), base_mul(cs)) == base_mul(
        scalar_bytes((le_value(nonce) + le_value(cs)) % group_order()),
    ));
}

} // verus!
