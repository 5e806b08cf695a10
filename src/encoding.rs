use vstd::prelude::*;

verus! {

/// The SHA-256 digest of a byte string.
pub uninterp spec fn sha256_of(data: Seq<u8>) -> Seq<u8>;

/// Relies on soroban_sdk's `Crypto::sha256`, which returns the SHA-256 digest
/// of the bytes handed to it; the digest depends on those bytes alone. Each
/// call runs on a fresh host whose default budget meters hashing by length,
/// so only short inputs, such as proposal-id preimages, are admitted.
#[verifier::external_body]
pub(crate) fn sha256(data: &Vec<u8>) -> (r: [u8; 32])
    requires
        data@.len() <= MAX_DIGEST_INPUT,
    ensures
        r@ == sha256_of(data@),
{
    let env = soroban_sdk::Env::default();
    let bytes = soroban_sdk::Bytes::from_slice(&env, data.as_slice());
    env.crypto().sha256(&bytes).to_array()
}

/// Longest input, in bytes, that is digested: a parameter proposal's preimage.
pub const MAX_DIGEST_INPUT: usize = 36;

/// The `width` low-order bytes of `n`, most significant first.
pub open spec fn be_bytes(n: nat, width: nat) -> Seq<u8>
    decreases width,
{
    if width == 0 {
        Seq::empty()
    } else {
        be_bytes(n / 256, (width - 1) as nat).push((n % 256) as u8)
    }
}

proof fn lemma_be_bytes_len(n: nat, width: nat)
    ensures
        be_bytes(n, width).len() == width,
    decreases width,
{
    if width > 0 {
        lemma_be_bytes_len(n / 256, (width - 1) as nat);
    }
}

/// Appends the `width` low-order bytes of `n` to `out`, most significant first.
pub fn push_be(out: &mut Vec<u8>, n: u128, width: usize)
    requires
        width <= 16,
    ensures
        final(out)@ == old(out)@ + be_bytes(n as nat, width as nat),
    decreases width,
{
    if width == 0 {
        assert(old(out)@ + be_bytes(n as nat, 0) =~= old(out)@);
    } else {
        push_be(out, n / 256, width - 1);
        let b: u8 = (n % 256) as u8;
        out.push(b);
        assert(final(out)@ =~= old(out)@ + be_bytes(n as nat, width as nat));
    }
}

/// The bytes from which a loan proposal's id is digested: borrower,
/// amount and submission time, each big-endian.
pub open spec fn loan_id_preimage(borrower: u64, amount: u128, now: u64) -> Seq<u8> {
    be_bytes(borrower as nat, 8) + be_bytes(amount as nat, 16) + be_bytes(now as nat, 8)
}

/// The bytes from which a trade proposal's id is digested: input asset,
/// input amount and submission time, each big-endian.
pub open spec fn trade_id_preimage(asset_in: u64, amount_in: u128, now: u64) -> Seq<u8> {
    be_bytes(asset_in as nat, 8) + be_bytes(amount_in as nat, 16) + be_bytes(now as nat, 8)
}

/// The bytes from which a governance proposal's id is digested: proposer,
/// parameter tag (four bytes), new value and submission time, each big-endian.
pub open spec fn parameter_id_preimage(proposer: u64, tag: u32, value: u128, now: u64) -> Seq<
    u8,
> {
    be_bytes(proposer as nat, 8) + be_bytes(tag as nat, 4) + be_bytes(value as nat, 16)
        + be_bytes(now as nat, 8)
}

/// Bytes of a loan proposal's id.
pub fn loan_proposal_preimage(borrower: u64, amount: u128, now: u64) -> (r: Vec<u8>)
    ensures
        r@ == loan_id_preimage(borrower, amount, now),
        r@.len() == 32,
{
    proof {
        lemma_be_bytes_len(borrower as nat, 8);
        lemma_be_bytes_len(amount as nat, 16);
        lemma_be_bytes_len(now as nat, 8);
    }
    let mut out: Vec<u8> = Vec::new();
    push_be(&mut out, borrower as u128, 8);
    push_be(&mut out, amount, 16);
    push_be(&mut out, now as u128, 8);
    assert(out@ =~= loan_id_preimage(borrower, amount, now));
    out
}

/// Bytes of a trade proposal's id.
pub fn trade_proposal_preimage(asset_in: u64, amount_in: u128, now: u64) -> (r: Vec<u8>)
    ensures
        r@ == trade_id_preimage(asset_in, amount_in, now),
        r@.len() == 32,
{
    proof {
        lemma_be_bytes_len(asset_in as nat, 8);
        lemma_be_bytes_len(amount_in as nat, 16);
        lemma_be_bytes_len(now as nat, 8);
    }
    let mut out: Vec<u8> = Vec::new();
    push_be(&mut out, asset_in as u128, 8);
    push_be(&mut out, amount_in, 16);
    push_be(&mut out, now as u128, 8);
    assert(out@ =~= trade_id_preimage(asset_in, amount_in, now));
    out
}

/// Bytes of a governance proposal's id.
pub fn parameter_proposal_preimage(proposer: u64, tag: u32, value: u128, now: u64) -> (r: Vec<u8>)
    ensures
        r@ == parameter_id_preimage(proposer, tag, value, now),
        r@.len() == 36,
{
    proof {
        lemma_be_bytes_len(proposer as nat, 8);
        lemma_be_bytes_len(tag as nat, 4);
        lemma_be_bytes_len(value as nat, 16);
        lemma_be_bytes_len(now as nat, 8);
    }
    let mut out: Vec<u8> = Vec::new();
    push_be(&mut out, proposer as u128, 8);
    push_be(&mut out, tag as u128, 4);
    push_be(&mut out, value, 16);
    push_be(&mut out, now as u128, 8);
    assert(out@ =~= parameter_id_preimage(proposer, tag, value, now));
    out
}

/// Whether two proposal ids hold the same bytes.
pub fn same_id(a: &[u8; 32], b: &[u8; 32]) -> (r: bool)
    ensures
        r == (a@ == b@),
{
    let mut i: usize = 0;
    while i < 32
        invariant
            0 <= i <= 32,
            a@.len() == 32,
            b@.len() == 32,
            forall|k: int| 0 <= k < i ==> a@[k] == b@[k],
        decreases 32 - i,
    {
        if a[i] != b[i] {
            return false;
        }
        i = i + 1;
    }
    assert(a@ =~= b@);
    true
}

} // verus!
