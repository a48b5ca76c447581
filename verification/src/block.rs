//! A single ledger entry: its digest, its proof of work and its signature.

use crate::encoding::{be_bytes, decimal, lemma_be_bytes_len, push_be_bytes, push_decimal};
use crate::hashing::{
    hex_encode, hex_string, lemma_hex_string_injective, sha256, sha256_digest, DIGEST_LEN,
};
use crate::signing::{
    ecdsa_public_key, ecdsa_signature, ecdsa_verifies, signature_bytes, Signature, SigningKey,
    VerifyingKey,
};
use vstd::prelude::*;
use vstd::string::{StrSliceExecFns, StringExecFns};
use vstd::utf8::encode_utf8;

verus! {

/// Number of leading `0` digits that a block's digest must show.
pub const DIFFICULTY: usize = 4;

/// One entry of the ledger.
#[derive(Clone, Debug)]
pub struct Block {
    pub index: u64,
    pub timestamp: u128,
    pub data: String,
    pub previous_hash: String,
    pub hash: String,
    pub nonce: u64,
    pub signature: Option<Signature>,
    pub patient_id: String,
    pub event_type: String,
}

/// What a block holds, as mathematical values.
pub struct BlockView {
    pub index: u64,
    pub timestamp: u128,
    pub data: Seq<char>,
    pub previous_hash: Seq<char>,
    pub hash: Seq<char>,
    pub nonce: u64,
    pub signature: Option<Seq<u8>>,
    pub patient_id: Seq<char>,
    pub event_type: Seq<char>,
}

impl View for Block {
    type V = BlockView;

    open spec fn view(&self) -> BlockView {
        BlockView {
            index: self.index,
            timestamp: self.timestamp,
            data: self.data@,
            previous_hash: self.previous_hash@,
            hash: self.hash@,
            nonce: self.nonce,
            signature: signature_bytes(self.signature),
            patient_id: self.patient_id@,
            event_type: self.event_type@,
        }
    }
}

/// The contents of an optional block.
pub open spec fn block_view(block: Option<Block>) -> Option<BlockView> {
    match block {
        Some(b) => Some(b@),
        None => None,
    }
}

/// The bytes that a block's digest is computed over: the index in 8 bytes and
/// the timestamp in 16, the payload and the previous digest in UTF-8, and the
/// nonce in 8 bytes. The integers are big-endian, so that a digest does not
/// depend on the machine that computes it.
pub open spec fn digest_input(
    index: u64,
    timestamp: u128,
    data: Seq<char>,
    previous_hash: Seq<char>,
    nonce: u64,
) -> Seq<u8> {
    be_bytes(index as nat, 8) + be_bytes(timestamp as nat, 16) + encode_utf8(data) + encode_utf8(
        previous_hash,
    ) + be_bytes(nonce as nat, 8)
}

/// The digest of a block with these fields: the SHA-256 of `digest_input`, in
/// lowercase hexadecimal.
pub open spec fn block_digest(
    index: u64,
    timestamp: u128,
    data: Seq<char>,
    previous_hash: Seq<char>,
    nonce: u64,
) -> Seq<char> {
    hex_string(sha256_digest(digest_input(index, timestamp, data, previous_hash, nonce)))
}

/// Whether a digest starts with `DIFFICULTY` digits `0`.
pub open spec fn difficulty_met(hash: Seq<char>) -> bool {
    &&& hash.len() >= DIFFICULTY
    &&& forall|i: int| 0 <= i < DIFFICULTY ==> hash[i] == '0'
}

/// Whether `nonce` gives a block with these fields a digest that meets the
/// difficulty.
pub open spec fn solves(
    index: u64,
    timestamp: u128,
    data: Seq<char>,
    previous_hash: Seq<char>,
    nonce: u64,
) -> bool {
    difficulty_met(block_digest(index, timestamp, data, previous_hash, nonce))
}

/// Whether `nonce` is the least nonce that solves the block.
pub open spec fn is_first_solution(
    index: u64,
    timestamp: u128,
    data: Seq<char>,
    previous_hash: Seq<char>,
    nonce: u64,
) -> bool {
    &&& solves(index, timestamp, data, previous_hash, nonce)
    &&& forall|m: u64| m < nonce ==> !solves(index, timestamp, data, previous_hash, m)
}

/// The nonce that mining finds: the least one that solves the block, or
/// `None` where no 64-bit nonce does.
pub open spec fn first_solution(
    index: u64,
    timestamp: u128,
    data: Seq<char>,
    previous_hash: Seq<char>,
) -> Option<u64> {
    if exists|n: u64| solves(index, timestamp, data, previous_hash, n) {
        Some(choose|n: u64| is_first_solution(index, timestamp, data, previous_hash, n))
    } else {
        None
    }
}

/// The block that construction gives for these fields: mined and unsigned,
/// or `None` where no nonce solves it.
pub open spec fn mined_block(
    index: u64,
    timestamp: u128,
    data: Seq<char>,
    previous_hash: Seq<char>,
    patient_id: Seq<char>,
    event_type: Seq<char>,
) -> Option<BlockView> {
    match first_solution(index, timestamp, data, previous_hash) {
        Some(nonce) => Some(
            BlockView {
                index,
                timestamp,
                data,
                previous_hash,
                hash: block_digest(index, timestamp, data, previous_hash, nonce),
                nonce,
                signature: None,
                patient_id,
                event_type,
            },
        ),
        None => None,
    }
}

/// The message that a signature covers: the index, the timestamp, the
/// payload, the previous digest and the nonce, the numbers in decimal, all
/// concatenated and encoded as UTF-8.
pub open spec fn signed_message(
    index: u64,
    timestamp: u128,
    data: Seq<char>,
    previous_hash: Seq<char>,
    nonce: u64,
) -> Seq<u8> {
    encode_utf8(
        decimal(index as nat) + decimal(timestamp as nat) + data + previous_hash + decimal(
            nonce as nat,
        ),
    )
}

/// What signing with `key` makes of a block: `after` is `before` with the
/// signature of `key` over the block's message in place of any earlier one,
/// and a signature that is there is one that the public half of `key`
/// accepts.
pub open spec fn signs(before: BlockView, after: BlockView, key: Seq<u8>) -> bool {
    &&& after == (BlockView { signature: ecdsa_signature(key, before.message()), ..before })
    &&& after.signature is Some ==> (ecdsa_public_key(key) matches Some(public) && after.verifies(
        public,
    ))
}

impl BlockView {
    /// The message that this block's signature covers.
    pub open spec fn message(self) -> Seq<u8> {
        signed_message(self.index, self.timestamp, self.data, self.previous_hash, self.nonce)
    }

    /// Whether the block carries a signature that `key` accepts for its
    /// message.
    pub open spec fn verifies(self, key: Seq<u8>) -> bool {
        match self.signature {
            Some(signature) => ecdsa_verifies(key, self.message(), signature),
            None => false,
        }
    }

    /// The line that describes the block to a reader: index, digest,
    /// payload, timestamp, previous digest, nonce, patient and event type.
    pub open spec fn rendered(self) -> Seq<char> {
        "Block "@ + decimal(self.index as nat) + " ["@ + self.hash + "]: "@ + self.data + " at: "@
            + decimal(self.timestamp as nat) + " with previous hash: "@ + self.previous_hash
            + ", nonce: "@ + decimal(self.nonce as nat) + ", patient ID: "@ + self.patient_id
            + ", event type: "@ + self.event_type
    }

    /// The bytes that the block's digest is computed over.
    pub open spec fn hashed_bytes(self) -> Seq<u8> {
        digest_input(self.index, self.timestamp, self.data, self.previous_hash, self.nonce)
    }

    /// The digest of the block's fields, which is the stored digest only as
    /// long as the block is intact.
    pub open spec fn digest(self) -> Seq<char> {
        block_digest(self.index, self.timestamp, self.data, self.previous_hash, self.nonce)
    }

    /// Whether the stored digest is the digest of the stored fields.
    pub open spec fn digest_intact(self) -> bool {
        self.hash == self.digest()
    }

    /// The block with `payload` in place of its payload.
    pub open spec fn with_payload(self, payload: Seq<char>) -> BlockView {
        BlockView { data: payload, ..self }
    }
}

/// A digest is a function of the fields it is computed from: what is
/// computed twice for the same fields is the same.
pub proof fn lemma_digest_deterministic(
    index: u64,
    timestamp: u128,
    data: Seq<char>,
    previous_hash: Seq<char>,
    nonce: u64,
    first: Seq<char>,
    second: Seq<char>,
)
    requires
        first == block_digest(index, timestamp, data, previous_hash, nonce),
        second == block_digest(index, timestamp, data, previous_hash, nonce),
    ensures
        first == second,
{
}

proof fn lemma_middle_cancels(
    prefix: Seq<u8>,
    first: Seq<u8>,
    other_prefix: Seq<u8>,
    second: Seq<u8>,
    suffix: Seq<u8>,
)
    requires
        prefix.len() == other_prefix.len(),
        prefix + first + suffix == other_prefix + second + suffix,
    ensures
        first == second,
{
    let a = prefix + first + suffix;
    let b = other_prefix + second + suffix;
    assert(a.len() == prefix.len() + first.len() + suffix.len());
    assert(b.len() == other_prefix.len() + second.len() + suffix.len());
    assert forall|i: int| 0 <= i < first.len() implies first[i] == second[i] by {
        assert(a[prefix.len() + i] == first[i]);
        assert(b[prefix.len() + i] == second[i]);
    }
    assert(first =~= second);
}

/// Two blocks that differ in their payload and name the same previous digest
/// are hashed from different bytes, whatever their indices, timestamps and
/// nonces.
pub proof fn lemma_payload_changes_digest_input(first: BlockView, second: BlockView)
    requires
        first.data != second.data,
        first.previous_hash == second.previous_hash,
    ensures
        first.hashed_bytes() != second.hashed_bytes(),
{
    let a = first.hashed_bytes();
    let b = second.hashed_bytes();
    if a == b {
        let head = be_bytes(first.index as nat, 8) + be_bytes(first.timestamp as nat, 16);
        let other_head = be_bytes(second.index as nat, 8) + be_bytes(second.timestamp as nat, 16);
        let link = encode_utf8(first.previous_hash);
        let tail = be_bytes(first.nonce as nat, 8);
        let other_tail = be_bytes(second.nonce as nat, 8);
        lemma_be_bytes_len(first.index as nat, 8);
        lemma_be_bytes_len(first.timestamp as nat, 16);
        lemma_be_bytes_len(first.nonce as nat, 8);
        lemma_be_bytes_len(second.index as nat, 8);
        lemma_be_bytes_len(second.timestamp as nat, 16);
        lemma_be_bytes_len(second.nonce as nat, 8);
        let body = head + encode_utf8(first.data) + link;
        let other_body = other_head + encode_utf8(second.data) + link;
        assert(a =~= body + tail);
        assert(b =~= other_body + other_tail);
        assert(body =~= a.subrange(0, a.len() - 8));
        assert(other_body =~= b.subrange(0, b.len() - 8));
        lemma_middle_cancels(
            head,
            encode_utf8(first.data),
            other_head,
            encode_utf8(second.data),
            link,
        );
        vstd::utf8::encode_utf8_decode_utf8(first.data);
        vstd::utf8::encode_utf8_decode_utf8(second.data);
    }
}

/// Two blocks that differ in their payload and name the same previous digest
/// have the same digest only where SHA-256 maps two different byte strings to
/// one value.
pub proof fn lemma_equal_digests_collide(first: BlockView, second: BlockView)
    requires
        first.data != second.data,
        first.previous_hash == second.previous_hash,
        first.digest() == second.digest(),
    ensures
        first.hashed_bytes() != second.hashed_bytes(),
        sha256_digest(first.hashed_bytes()) == sha256_digest(second.hashed_bytes()),
{
    lemma_payload_changes_digest_input(first, second);
    lemma_hex_string_injective(
        sha256_digest(first.hashed_bytes()),
        sha256_digest(second.hashed_bytes()),
    );
}

/// A block that `key` has signed, and that carries a signature, verifies
/// under the public half of `key`; a block without a signature verifies
/// under no key.
pub proof fn lemma_signature_round_trip(
    before: BlockView,
    after: BlockView,
    signing_key: Seq<u8>,
    verifying_key: Seq<u8>,
)
    requires
        signs(before, after, signing_key),
    ensures
        after.signature is Some && ecdsa_public_key(signing_key) == Some(verifying_key)
            ==> after.verifies(verifying_key),
        after.signature is None ==> !after.verifies(verifying_key),
        after.message() == before.message(),
{
}

/// A first solution is the only one, and it is what `first_solution` names.
pub proof fn lemma_first_solution_unique(
    index: u64,
    timestamp: u128,
    data: Seq<char>,
    previous_hash: Seq<char>,
    nonce: u64,
)
    requires
        is_first_solution(index, timestamp, data, previous_hash, nonce),
    ensures
        first_solution(index, timestamp, data, previous_hash) == Some(nonce),
{
    let chosen = choose|n: u64| is_first_solution(index, timestamp, data, previous_hash, n);
    assert(is_first_solution(index, timestamp, data, previous_hash, chosen));
    assert(solves(index, timestamp, data, previous_hash, nonce));
    if chosen < nonce {
        assert(!solves(index, timestamp, data, previous_hash, chosen));
    } else if nonce < chosen {
        assert(!solves(index, timestamp, data, previous_hash, nonce));
    }
}

proof fn lemma_least_solution_exists(
    index: u64,
    timestamp: u128,
    data: Seq<char>,
    previous_hash: Seq<char>,
    nonce: u64,
)
    requires
        solves(index, timestamp, data, previous_hash, nonce),
    ensures
        exists|n: u64| is_first_solution(index, timestamp, data, previous_hash, n),
    decreases nonce,
{
    if exists|m: u64| m < nonce && solves(index, timestamp, data, previous_hash, m) {
        let m = choose|m: u64| m < nonce && solves(index, timestamp, data, previous_hash, m);
        lemma_least_solution_exists(index, timestamp, data, previous_hash, m);
    } else {
        assert(is_first_solution(index, timestamp, data, previous_hash, nonce));
    }
}

/// `first_solution` names a nonce exactly when that nonce is the least one
/// that solves the block, and names none exactly when no nonce solves it.
pub proof fn lemma_first_solution_characterized(
    index: u64,
    timestamp: u128,
    data: Seq<char>,
    previous_hash: Seq<char>,
)
    ensures
        forall|n: u64|
            first_solution(index, timestamp, data, previous_hash) == Some(n) <==> is_first_solution(
                index,
                timestamp,
                data,
                previous_hash,
                n,
            ),
        first_solution(index, timestamp, data, previous_hash) is None <==> forall|n: u64|
            !solves(index, timestamp, data, previous_hash, n),
{
    assert forall|n: u64|
        first_solution(index, timestamp, data, previous_hash) == Some(n) <==> is_first_solution(
            index,
            timestamp,
            data,
            previous_hash,
            n,
        ) by {
        if is_first_solution(index, timestamp, data, previous_hash, n) {
            lemma_first_solution_unique(index, timestamp, data, previous_hash, n);
        }
        if first_solution(index, timestamp, data, previous_hash) == Some(n) {
            let w = choose|w: u64| solves(index, timestamp, data, previous_hash, w);
            lemma_least_solution_exists(index, timestamp, data, previous_hash, w);
        }
    }
}

/// Whether a digest meets the difficulty: whether it starts with
/// `DIFFICULTY` digits `0`.
pub fn meets_difficulty(hash: &str) -> (met: bool)
    ensures
        met == difficulty_met(hash@),
{
    if hash.unicode_len() < DIFFICULTY {
        return false;
    }
    let mut i: usize = 0;
    while i < DIFFICULTY
        invariant
            i <= DIFFICULTY,
            DIFFICULTY <= hash@.len(),
            forall|j: int| 0 <= j < i ==> hash@[j] == '0',
        decreases DIFFICULTY - i,
    {
        if hash.get_char(i) != '0' {
            return false;
        }
        i += 1;
    }
    true
}

impl Block {
    /// Builds a block with the given fields and mines it: the nonce is the
    /// least one whose digest meets the difficulty. The block comes back
    /// unsigned. `None` where no 64-bit nonce solves the block.
    pub fn new(
        index: u64,
        timestamp: u128,
        data: String,
        previous_hash: String,
        patient_id: String,
        event_type: String,
    ) -> (block: Option<Block>)
        ensures
            block_view(block) == mined_block(
                index,
                timestamp,
                data@,
                previous_hash@,
                patient_id@,
                event_type@,
            ),
            block matches Some(b) ==> difficulty_met(b@.hash) && b@.digest_intact(),
    {
        match Self::mine_block(index, timestamp, data.as_str(), previous_hash.as_str()) {
            Some((hash, nonce)) => Some(
                Block {
                    index,
                    timestamp,
                    data,
                    previous_hash,
                    hash,
                    nonce,
                    signature: None,
                    patient_id,
                    event_type,
                },
            ),
            None => None,
        }
    }

    /// Computes the digest of a block with the given fields: 64 lowercase
    /// hexadecimal digits.
    pub fn calculate_hash(
        index: u64,
        timestamp: u128,
        data: &str,
        previous_hash: &str,
        nonce: u64,
    ) -> (hash: String)
        ensures
            hash@ == block_digest(index, timestamp, data@, previous_hash@, nonce),
            hash@.len() == 2 * DIGEST_LEN,
    {
        let mut input: Vec<u8> = Vec::new();
        push_be_bytes(&mut input, index as u128, 8);
        push_be_bytes(&mut input, timestamp, 16);
        input.extend_from_slice(data.as_bytes());
        input.extend_from_slice(previous_hash.as_bytes());
        push_be_bytes(&mut input, nonce as u128, 8);
        assert(input@ =~= digest_input(index, timestamp, data@, previous_hash@, nonce));
        let digest = sha256(input.as_slice());
        hex_encode(digest.as_slice())
    }

    /// Searches the nonces from zero upwards for the first whose digest meets
    /// the difficulty, and returns that digest with the nonce. `None` where
    /// none of the 64-bit nonces does.
    pub fn mine_block(index: u64, timestamp: u128, data: &str, previous_hash: &str) -> (found:
        Option<(String, u64)>)
        ensures
            match found {
                Some((hash, nonce)) => {
                    &&& first_solution(index, timestamp, data@, previous_hash@) == Some(nonce)
                    &&& hash@ == block_digest(index, timestamp, data@, previous_hash@, nonce)
                    &&& difficulty_met(hash@)
                },
                None => first_solution(index, timestamp, data@, previous_hash@) is None,
            },
    {
        let mut nonce: u64 = 0;
        loop
            invariant
                forall|m: u64| m < nonce ==> !solves(index, timestamp, data@, previous_hash@, m),
            decreases u64::MAX - nonce,
        {
            let hash = Self::calculate_hash(index, timestamp, data, previous_hash, nonce);
            if meets_difficulty(hash.as_str()) {
                proof {
                    lemma_first_solution_unique(index, timestamp, data@, previous_hash@, nonce);
                }
                return Some((hash, nonce));
            }
            if nonce == u64::MAX {
                return None;
            }
            nonce += 1;
        }
    }

    /// The message that this block's signature covers.
    pub fn signing_message(&self) -> (message: Vec<u8>)
        ensures
            message@ == self@.message(),
    {
        let mut text = String::new();
        push_decimal(&mut text, self.index as u128);
        push_decimal(&mut text, self.timestamp);
        text.append(self.data.as_str());
        text.append(self.previous_hash.as_str());
        push_decimal(&mut text, self.nonce as u128);
        text.as_str().as_bytes_vec()
    }

    /// The line that describes the block to a reader.
    pub fn to_string(&self) -> (line: String)
        ensures
            line@ == self@.rendered(),
    {
        let mut line = String::from_str("Block ");
        push_decimal(&mut line, self.index as u128);
        line.append(" [");
        line.append(self.hash.as_str());
        line.append("]: ");
        line.append(self.data.as_str());
        line.append(" at: ");
        push_decimal(&mut line, self.timestamp);
        line.append(" with previous hash: ");
        line.append(self.previous_hash.as_str());
        line.append(", nonce: ");
        push_decimal(&mut line, self.nonce as u128);
        line.append(", patient ID: ");
        line.append(self.patient_id.as_str());
        line.append(", event type: ");
        line.append(self.event_type.as_str());
        line
    }

    /// Signs the block's message with `signing_key` and stores the signature,
    /// replacing any earlier one. Where the key cannot sign, the block is
    /// left unsigned. No other field changes.
    pub fn sign_block(&mut self, signing_key: &SigningKey)
        ensures
            signs(old(self)@, final(self)@, signing_key@),
    {
        let message = self.signing_message();
        self.signature = signing_key.sign(message.as_slice());
    }

    /// Whether the block carries a signature that `verifying_key` accepts
    /// for the block's message. An unsigned block never verifies.
    pub fn verify_signature(&self, verifying_key: &VerifyingKey) -> (valid: bool)
        ensures
            valid == self@.verifies(verifying_key@),
            self.signature is None ==> !valid,
    {
        match &self.signature {
            Some(signature) => {
                let message = self.signing_message();
                verifying_key.verify(message.as_slice(), signature)
            },
            None => false,
        }
    }
}

} // verus!
