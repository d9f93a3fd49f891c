//! Proof-of-work gate for high-risk delegation.
//!
//! A challenge is satisfied when the challenge payload, followed by the
//! little-endian bytes of the supplied nonce, hashes to a digest whose
//! leading zero-bit count meets the difficulty target. Validation is a pure
//! function of payload, nonce and target.

use vstd::prelude::*;
use vstd::bytes::{spec_u64_to_le_bytes, u64_to_le_bytes};

verus! {

/// The SHA-256 digest of a byte sequence, as the sha2 crate computes it.
pub uninterp spec fn sha256_of(data: Seq<u8>) -> Seq<u8>;

/// One lowercase hex digit for a value below sixteen.
pub open spec fn spec_hex_digit(n: u8) -> char {
    if n < 10 {
        (48 + n) as char
    } else {
        (87 + n) as char
    }
}

/// The lowercase hex encoding of a byte sequence: two digits per byte,
/// high nibble first.
pub open spec fn hex_of(data: Seq<u8>) -> Seq<char>
    decreases data.len(),
{
    if data.len() == 0 {
        Seq::empty()
    } else {
        hex_of(data.drop_last()) + seq![
            spec_hex_digit(data.last() / 16),
            spec_hex_digit(data.last() % 16),
        ]
    }
}

/// Relies on sha2::Sha256::digest: the 32-byte SHA-256 digest of the input,
/// a function of the input alone.
#[verifier::external_body]
pub(crate) fn sha256_digest(data: &Vec<u8>) -> (r: Vec<u8>)
    ensures
        r@ == sha256_of(data@),
        r@.len() == 32,
{
    <sha2::Sha256 as sha2::Digest>::digest(data.as_slice()).to_vec()
}

/// Relies on hex::encode: lowercase hex, two digits for each input byte,
/// high nibble first, exactly as `hex_of` spells it out.
#[verifier::external_body]
pub(crate) fn hex_encode(data: &Vec<u8>) -> (r: String)
    ensures
        r@ == hex_of(data@),
        r@.len() == 2 * data@.len(),
{
    hex::encode(data.as_slice())
}

/// Relies on rand::random: an arbitrary value; nothing is promised of it.
#[verifier::external_body]
pub(crate) fn random_u64() -> u64 {
    rand::random::<u64>()
}

/// Leading zero bits of one byte.
pub open spec fn spec_leading_zeros_byte(b: u8) -> int {
    if b >= 128 {
        0
    } else if b >= 64 {
        1
    } else if b >= 32 {
        2
    } else if b >= 16 {
        3
    } else if b >= 8 {
        4
    } else if b >= 4 {
        5
    } else if b >= 2 {
        6
    } else if b >= 1 {
        7
    } else {
        8
    }
}

/// Leading zero bits of a byte sequence, reading bytes most significant
/// first.
pub open spec fn spec_leading_zero_bits(d: Seq<u8>) -> int
    decreases d.len(),
{
    if d.len() == 0 {
        0
    } else if d[0] == 0 {
        8 + spec_leading_zero_bits(d.drop_first())
    } else {
        spec_leading_zeros_byte(d[0])
    }
}

/// Leading zero bits of one byte.
fn leading_zeros_byte(b: u8) -> (r: u32)
    ensures
        r == spec_leading_zeros_byte(b),
{
    if b >= 128 {
        0
    } else if b >= 64 {
        1
    } else if b >= 32 {
        2
    } else if b >= 16 {
        3
    } else if b >= 8 {
        4
    } else if b >= 4 {
        5
    } else if b >= 2 {
        6
    } else if b >= 1 {
        7
    } else {
        8
    }
}

/// Count the leading zero bits of a digest.
pub fn leading_zero_bits(d: &Vec<u8>) -> (r: u64)
    requires
        d@.len() <= 1000,
    ensures
        r == spec_leading_zero_bits(d@),
{
    let mut i: usize = 0;
    proof {
        assert(d@.skip(0) =~= d@);
    }
    while i < d.len() && d[i] == 0
        invariant
            i <= d@.len(),
            d@.len() <= 1000,
            forall|j: int| 0 <= j < i ==> d@[j] == 0,
            spec_leading_zero_bits(d@) == 8 * i + spec_leading_zero_bits(d@.skip(i as int)),
        decreases d@.len() - i,
    {
        proof {
            assert(d@.skip(i as int)[0] == d@[i as int]);
            assert(d@.skip(i as int).drop_first() =~= d@.skip(i as int + 1));
        }
        i += 1;
    }
    if i < d.len() {
        proof {
            assert(d@.skip(i as int)[0] == d@[i as int]);
        }
        8 * (i as u64) + leading_zeros_byte(d[i]) as u64
    } else {
        proof {
            assert(d@.skip(i as int) =~= Seq::<u8>::empty());
        }
        8 * (i as u64)
    }
}

/// The message a proof-of-work nonce is checked against: the payload
/// followed by the nonce in little-endian bytes.
pub open spec fn spec_pow_message(payload: Seq<u8>, nonce: u64) -> Seq<u8> {
    payload + spec_u64_to_le_bytes(nonce)
}

/// The verdict of proof-of-work validation: the digest of the message must
/// lead with at least `difficulty` zero bits.
pub open spec fn spec_pow_verdict(payload: Seq<u8>, nonce: u64, difficulty: u32) -> bool {
    spec_leading_zero_bits(sha256_of(spec_pow_message(payload, nonce))) >= difficulty
}

/// Validate a proof-of-work nonce against a challenge payload. The verdict
/// is a pure function of `(payload, nonce, difficulty_target)`; an invalid
/// proof never reaches process execution.
pub fn validate_proof_of_work(payload: &Vec<u8>, nonce: u64, difficulty_target: u32) -> (r: bool)
    ensures
        r == spec_pow_verdict(payload@, nonce, difficulty_target),
{
    let mut message: Vec<u8> = Vec::new();
    let mut i: usize = 0;
    while i < payload.len()
        invariant
            i <= payload@.len(),
            message@ =~= payload@.subrange(0, i as int),
        decreases payload@.len() - i,
    {
        message.push(payload[i]);
        i += 1;
    }
    proof {
        assert(message@ =~= payload@);
    }
    let mut nonce_bytes = u64_to_le_bytes(nonce);
    message.append(&mut nonce_bytes);
    proof {
        assert(message@ == spec_pow_message(payload@, nonce));
    }
    let digest = sha256_digest(&message);
    let zeros = leading_zero_bits(&digest);
    zeros >= difficulty_target as u64
}

/// Proof-of-work validation is deterministic: two verdicts for the same
/// payload, nonce and difficulty always agree.
pub proof fn lemma_pow_deterministic(
    payload: Seq<u8>,
    nonce: u64,
    difficulty: u32,
    v1: bool,
    v2: bool,
)
    requires
        v1 == spec_pow_verdict(payload, nonce, difficulty),
        v2 == spec_pow_verdict(payload, nonce, difficulty),
    ensures
        v1 == v2,
{
}

/// A difficulty-targeted hash puzzle gating a high-risk delegation.
#[derive(Debug, Clone)]
pub struct ProofOfWorkChallenge {
    pub challenge_id: String,
    pub target_difficulty: u32,
    pub task_payload: Vec<u8>,
    pub deadline: u64,
    pub delegator_node: String,
}

/// Decimal digits of `n`, as ASCII bytes.
pub open spec fn spec_dec_bytes(n: int) -> Seq<u8>
    decreases n,
{
    if n < 10 {
        seq![(n + 48) as u8]
    } else {
        spec_dec_bytes(n / 10).push((n % 10 + 48) as u8)
    }
}

/// Write `n` in decimal ASCII.
pub(crate) fn u64_dec_bytes(n: u64) -> (r: Vec<u8>)
    ensures
        r@ == spec_dec_bytes(n as int),
    decreases n,
{
    if n < 10 {
        let mut v: Vec<u8> = Vec::new();
        v.push((n as u8) + 48);
        proof {
            assert(v@ =~= spec_dec_bytes(n as int));
        }
        v
    } else {
        let mut v = u64_dec_bytes(n / 10);
        v.push(((n % 10) as u8) + 48);
        v
    }
}

/// Decimal digits are ASCII digit bytes.
pub proof fn lemma_dec_bytes_ascii(n: int)
    requires
        n >= 0,
    ensures
        forall|i: int|
            0 <= i < spec_dec_bytes(n).len() ==> 48 <= #[trigger] spec_dec_bytes(n)[i] && spec_dec_bytes(n)[i] <= 57,
    decreases n,
{
    if n >= 10 {
        lemma_dec_bytes_ascii(n / 10);
        assert forall|i: int|
            0 <= i < spec_dec_bytes(n).len() implies 48 <= #[trigger] spec_dec_bytes(n)[i]
            && spec_dec_bytes(n)[i] <= 57 by {
            if i < spec_dec_bytes(n / 10).len() {
                assert(spec_dec_bytes(n)[i] == spec_dec_bytes(n / 10)[i]);
            }
        }
    }
}

/// The seed a challenge is derived from: the task id, the clock reading and
/// a random draw, colon-separated.
pub open spec fn spec_challenge_seed(task_id: Seq<u8>, now: u64, draw: u64) -> Seq<u8> {
    task_id + seq![58u8] + spec_dec_bytes(now as int) + seq![58u8] + spec_dec_bytes(draw as int)
}

/// Synthesize a proof-of-work challenge for a task: the payload is the
/// SHA-256 digest of the task id, the clock reading and a fresh random
/// draw; the challenge id is the hex form of the digest's first 8 bytes;
/// the deadline is 30 ticks after `now`. The randomness makes the payload
/// unpredictable, so nothing more is promised of it.
pub fn generate_proof_challenge(
    task_id: &Vec<u8>,
    now: u64,
    difficulty: u32,
    delegator_node: String,
) -> (r: ProofOfWorkChallenge)
    requires
        now <= u64::MAX - 30,
    ensures
        r.target_difficulty == difficulty,
        r.deadline == now + 30,
        r.task_payload@.len() == 32,
        r.challenge_id@.len() == 16,
        r.delegator_node == delegator_node,
        exists|draw: u64|
            {
                &&& r.task_payload@ == sha256_of(
                    #[trigger] spec_challenge_seed(task_id@, now, draw),
                )
                &&& r.challenge_id@ == hex_of(r.task_payload@.subrange(0, 8))
            },
{
    let draw = random_u64();
    let mut seed: Vec<u8> = Vec::new();
    let mut i: usize = 0;
    while i < task_id.len()
        invariant
            i <= task_id@.len(),
            seed@ =~= task_id@.subrange(0, i as int),
        decreases task_id@.len() - i,
    {
        seed.push(task_id[i]);
        i += 1;
    }
    proof {
        assert(seed@ =~= task_id@);
    }
    seed.push(58);
    let mut now_bytes = u64_dec_bytes(now);
    seed.append(&mut now_bytes);
    seed.push(58);
    let mut draw_bytes = u64_dec_bytes(draw);
    seed.append(&mut draw_bytes);
    proof {
        assert(seed@ =~= spec_challenge_seed(task_id@, now, draw));
    }
    let digest = sha256_digest(&seed);
    let mut head: Vec<u8> = Vec::new();
    let mut j: usize = 0;
    while j < 8
        invariant
            j <= 8,
            digest@.len() == 32,
            digest@ == sha256_of(spec_challenge_seed(task_id@, now, draw)),
            head@ =~= digest@.subrange(0, j as int),
        decreases 8 - j,
    {
        head.push(digest[j]);
        j += 1;
    }
    let challenge_id = hex_encode(&head);
    ProofOfWorkChallenge {
        challenge_id,
        target_difficulty: difficulty,
        task_payload: digest,
        deadline: now + 30,
        delegator_node,
    }
}

} // verus!
