//! The ledger: an append-only sequence of mined and signed blocks, each bound
//! to the one before it.

use crate::block::{
    difficulty_met, lemma_equal_digests_collide, mined_block, Block, BlockView,
};
use crate::hashing::sha256_digest;
use crate::signing::{ecdsa_public_key, ecdsa_signature, SigningKey, VerifyingKey};
use crate::utils::{millis_after_epoch, now_as_millis};
use std::time::SystemTime;
use vstd::prelude::*;
use vstd::string::StringExecFns;

verus! {

/// Why a block could not be added to a ledger.
#[derive(Clone, Copy, Debug, PartialEq, Eq, Structural)]
pub enum ChainError {
    /// The ledger holds no block to append to.
    EmptyChain,
    /// The system clock reads a time before the Unix epoch.
    ClockUnavailable,
    /// The last block carries the largest index there is.
    IndexOverflow,
    /// No 64-bit nonce gives the block a digest that meets the difficulty.
    NonceSpaceExhausted,
    /// The signing key could not sign the block.
    SigningFailed,
}

/// The ledger, with the key pair that signs and checks its blocks.
pub struct Blockchain {
    pub blocks: Vec<Block>,
    pub signing_key: SigningKey,
    pub verifying_key: VerifyingKey,
}

/// What a ledger holds, as mathematical values.
pub struct ChainView {
    pub blocks: Seq<BlockView>,
    pub signing_key: Seq<u8>,
    pub verifying_key: Seq<u8>,
}

impl View for Blockchain {
    type V = ChainView;

    open spec fn view(&self) -> ChainView {
        ChainView {
            blocks: Seq::new(self.blocks@.len(), |i: int| self.blocks@[i]@),
            signing_key: self.signing_key@,
            verifying_key: self.verifying_key@,
        }
    }
}

/// What a caller gives to have a block appended, with the time of the
/// appending.
pub struct Entry {
    pub timestamp: u128,
    pub data: Seq<char>,
    pub patient_id: Seq<char>,
    pub event_type: Seq<char>,
}

/// The block that mining and then signing with `key` gives for these fields,
/// or the reason why there is none.
pub open spec fn sealed(
    index: u64,
    timestamp: u128,
    data: Seq<char>,
    previous_hash: Seq<char>,
    patient_id: Seq<char>,
    event_type: Seq<char>,
    key: Seq<u8>,
) -> Result<BlockView, ChainError> {
    match mined_block(index, timestamp, data, previous_hash, patient_id, event_type) {
        None => Err(ChainError::NonceSpaceExhausted),
        Some(block) => match ecdsa_signature(key, block.message()) {
            None => Err(ChainError::SigningFailed),
            Some(signature) => Ok(BlockView { signature: Some(signature), ..block }),
        },
    }
}

/// The genesis block made at `timestamp` and signed with `key`.
pub open spec fn genesis(timestamp: u128, key: Seq<u8>) -> Result<BlockView, ChainError> {
    sealed(0, timestamp, "Genesis Block"@, "0"@, "genesis"@, "initialization"@, key)
}

/// Whether block `i` passes validation under `key`: it is signed, its digest
/// is that of its fields, and it names the digest of the block before it.
pub open spec fn block_valid(blocks: Seq<BlockView>, i: int, key: Seq<u8>) -> bool {
    &&& blocks[i].verifies(key)
    &&& blocks[i].digest_intact()
    &&& blocks[i].previous_hash == blocks[i - 1].hash
}

impl ChainView {
    /// Whether the ledger passes validation: there is a first block and it
    /// is signed, and every later block is signed, intact and linked to its
    /// predecessor. A ledger without blocks has no genesis block to verify
    /// and does not pass.
    pub open spec fn is_valid(self) -> bool {
        &&& self.blocks.len() > 0
        &&& self.blocks[0].verifies(self.verifying_key)
        &&& forall|i: int|
            1 <= i < self.blocks.len() ==> block_valid(self.blocks, i, self.verifying_key)
    }

    /// What appending a block made at `timestamp` gives: the ledger with the
    /// new block at its end, or the reason why nothing was appended.
    pub open spec fn appended(
        self,
        timestamp: u128,
        data: Seq<char>,
        patient_id: Seq<char>,
        event_type: Seq<char>,
    ) -> Result<ChainView, ChainError> {
        if self.blocks.len() == 0 {
            Err(ChainError::EmptyChain)
        } else if self.blocks.last().index == u64::MAX {
            Err(ChainError::IndexOverflow)
        } else {
            match sealed(
                (self.blocks.last().index + 1) as u64,
                timestamp,
                data,
                self.blocks.last().hash,
                patient_id,
                event_type,
                self.signing_key,
            ) {
                Ok(block) => Ok(ChainView { blocks: self.blocks.push(block), ..self }),
                Err(e) => Err(e),
            }
        }
    }

    /// What appending a block gives when the clock reads `now`: as
    /// `appended` for the milliseconds from the epoch to `now`, and the clock
    /// error where a ledger with blocks finds `now` before the epoch.
    pub open spec fn appended_at_reading(
        self,
        now: SystemTime,
        data: Seq<char>,
        patient_id: Seq<char>,
        event_type: Seq<char>,
    ) -> Result<ChainView, ChainError> {
        if self.blocks.len() == 0 {
            Err(ChainError::EmptyChain)
        } else {
            match millis_after_epoch(now) {
                Some(timestamp) => self.appended(timestamp, data, patient_id, event_type),
                None => Err(ChainError::ClockUnavailable),
            }
        }
    }

    /// The ledger that construction gives for a key pair when the clock reads
    /// `now`: as `founded` for the milliseconds from the epoch to `now`, and
    /// the clock error where `now` is before the epoch.
    pub open spec fn founded_at_reading(
        signing_key: Seq<u8>,
        verifying_key: Seq<u8>,
        now: SystemTime,
    ) -> Result<ChainView, ChainError> {
        match millis_after_epoch(now) {
            Some(timestamp) => Self::founded(signing_key, verifying_key, timestamp),
            None => Err(ChainError::ClockUnavailable),
        }
    }

    /// The ledger with the payload of block `i` replaced by `payload`.
    pub open spec fn with_payload(self, i: int, payload: Seq<char>) -> ChainView {
        ChainView { blocks: self.blocks.update(i, self.blocks[i].with_payload(payload)), ..self }
    }

    /// The ledger that construction at `timestamp` gives for a key pair: one
    /// that holds the genesis block alone, or the reason why there is none.
    pub open spec fn founded(
        signing_key: Seq<u8>,
        verifying_key: Seq<u8>,
        timestamp: u128,
    ) -> Result<ChainView, ChainError> {
        match genesis(timestamp, signing_key) {
            Ok(block) => Ok(ChainView { blocks: seq![block], signing_key, verifying_key }),
            Err(e) => Err(e),
        }
    }

    /// What appending one block for each of `entries`, in order, gives: the
    /// ledger with all of them, or the reason why the first that failed did.
    pub open spec fn extended(self, entries: Seq<Entry>) -> Result<ChainView, ChainError>
        decreases entries.len(),
    {
        if entries.len() == 0 {
            Ok(self)
        } else {
            match self.extended(entries.drop_last()) {
                Ok(chain) => chain.appended(
                    entries.last().timestamp,
                    entries.last().data,
                    entries.last().patient_id,
                    entries.last().event_type,
                ),
                Err(e) => Err(e),
            }
        }
    }

    /// Whether every block sits at the position that its index names.
    pub open spec fn indexed(self) -> bool {
        forall|i: int| 0 <= i < self.blocks.len() ==> (#[trigger] self.blocks[i]).index == i
    }

    /// Whether every block but the first names the digest of the block
    /// before it.
    pub open spec fn linked(self) -> bool {
        forall|i: int|
            1 <= i < self.blocks.len() ==> (#[trigger] self.blocks[i]).previous_hash
                == self.blocks[i - 1].hash
    }

    /// Whether every block's digest is that of its fields and meets the
    /// difficulty.
    pub open spec fn mined(self) -> bool {
        forall|i: int|
            0 <= i < self.blocks.len() ==> (#[trigger] self.blocks[i]).digest_intact()
                && difficulty_met(self.blocks[i].hash)
    }

    /// Whether every block carries the signature of the ledger's signing key
    /// over its message, one that the key's public half accepts.
    pub open spec fn signed(self) -> bool {
        &&& ecdsa_public_key(self.signing_key) is Some
        &&& forall|i: int|
            0 <= i < self.blocks.len() ==> {
                &&& (#[trigger] self.blocks[i]).signature == ecdsa_signature(
                    self.signing_key,
                    self.blocks[i].message(),
                )
                &&& self.blocks[i].verifies(ecdsa_public_key(self.signing_key)->0)
            }
    }

    /// What holds of a ledger that was constructed and then only appended
    /// to: it starts with a genesis block and is indexed, linked, mined and
    /// signed throughout.
    pub open spec fn well_formed(self) -> bool {
        &&& self.blocks.len() > 0
        &&& self.blocks[0].previous_hash == "0"@
        &&& self.indexed()
        &&& self.linked()
        &&& self.mined()
        &&& self.signed()
    }
}

/// What a ledger or the error in its place holds, as mathematical values.
pub open spec fn chain_view(chain: Result<Blockchain, ChainError>) -> Result<
    ChainView,
    ChainError,
> {
    match chain {
        Ok(c) => Ok(c@),
        Err(e) => Err(e),
    }
}

/// Whether `block` is mined and carries a signature that the public half of
/// the signing key `key` accepts.
pub open spec fn sealed_by(block: BlockView, key: Seq<u8>) -> bool {
    &&& block.digest_intact()
    &&& difficulty_met(block.hash)
    &&& ecdsa_public_key(key) matches Some(public) && block.verifies(public)
}

/// Whether `result` and `after` are what an operation leaves that was to
/// produce `outcome` from the ledger `before`: the new ledger on success, the
/// error and the old ledger otherwise.
pub open spec fn reflects(
    outcome: Result<ChainView, ChainError>,
    before: ChainView,
    result: Result<(), ChainError>,
    after: ChainView,
) -> bool {
    match outcome {
        Ok(chain) => result is Ok && after == chain,
        Err(e) => result == Err::<(), ChainError>(e) && after == before,
    }
}

/// In a well-formed ledger every block sits at the position that its index
/// names, and every block but the first names the digest of the block
/// before it.
pub proof fn lemma_chain_linkage(chain: ChainView, i: int)
    requires
        chain.well_formed(),
        0 <= i < chain.blocks.len(),
    ensures
        chain.blocks[i].index == i,
        i >= 1 ==> chain.blocks[i].previous_hash == chain.blocks[i - 1].hash,
        i == 0 ==> chain.blocks[i].previous_hash == "0"@,
{
}

/// Appending to a ledger that is indexed and linked gives one that is, with
/// one block more.
pub proof fn lemma_append_keeps_linkage(chain: ChainView, entry: Entry)
    requires
        chain.indexed(),
        chain.linked(),
        chain.appended(entry.timestamp, entry.data, entry.patient_id, entry.event_type) is Ok,
    ensures
        ({
            let next = chain.appended(
                entry.timestamp,
                entry.data,
                entry.patient_id,
                entry.event_type,
            )->Ok_0;
            &&& next.blocks.len() == chain.blocks.len() + 1
            &&& next.blocks.drop_last() == chain.blocks
            &&& next.indexed()
            &&& next.linked()
        }),
{
    let next = chain.appended(
        entry.timestamp,
        entry.data,
        entry.patient_id,
        entry.event_type,
    )->Ok_0;
    assert(next.blocks.drop_last() =~= chain.blocks);
}

/// A freshly constructed ledger to which any number of blocks have been
/// appended holds one block more than were appended, every block sits at the
/// position that its index names, and every block but the first names the
/// digest of the block before it.
pub proof fn lemma_appends_keep_linkage(
    signing_key: Seq<u8>,
    verifying_key: Seq<u8>,
    timestamp: u128,
    entries: Seq<Entry>,
)
    requires
        ChainView::founded(signing_key, verifying_key, timestamp) is Ok,
        ChainView::founded(signing_key, verifying_key, timestamp)->Ok_0.extended(entries) is Ok,
    ensures
        ({
            let chain = ChainView::founded(signing_key, verifying_key, timestamp)->Ok_0.extended(
                entries,
            )->Ok_0;
            &&& chain.blocks.len() == entries.len() + 1
            &&& forall|i: int| 0 <= i < chain.blocks.len() ==> chain.blocks[i].index == i
            &&& forall|i: int|
                1 <= i < chain.blocks.len() ==> chain.blocks[i].previous_hash == chain.blocks[i
                    - 1].hash
        }),
    decreases entries.len(),
{
    let first = ChainView::founded(signing_key, verifying_key, timestamp)->Ok_0;
    if entries.len() == 0 {
        assert(first.blocks.len() == 1);
    } else {
        lemma_appends_keep_linkage(signing_key, verifying_key, timestamp, entries.drop_last());
        let before = first.extended(entries.drop_last())->Ok_0;
        assert(before.indexed());
        assert(before.linked());
        lemma_append_keeps_linkage(before, entries.last());
    }
}

/// Putting a block that passes validation at the end of a valid ledger gives
/// a valid ledger.
pub proof fn lemma_append_keeps_validity(chain: ChainView, block: BlockView)
    requires
        chain.is_valid(),
        block.verifies(chain.verifying_key),
        block.digest_intact(),
        block.previous_hash == chain.blocks.last().hash,
    ensures
        (ChainView { blocks: chain.blocks.push(block), ..chain }).is_valid(),
{
    let next = ChainView { blocks: chain.blocks.push(block), ..chain };
    assert(next.blocks[0] == chain.blocks[0]);
    assert forall|i: int| 1 <= i < next.blocks.len() implies block_valid(
        next.blocks,
        i,
        next.verifying_key,
    ) by {
        if i < chain.blocks.len() {
            assert(block_valid(chain.blocks, i, chain.verifying_key));
            assert(next.blocks[i] == chain.blocks[i]);
            assert(next.blocks[i - 1] == chain.blocks[i - 1]);
        } else {
            assert(next.blocks[i] == block);
            assert(next.blocks[i - 1] == chain.blocks.last());
        }
    }
}

/// A well-formed ledger whose verifying key is the public half of its
/// signing key passes validation.
pub proof fn lemma_well_formed_is_valid(chain: ChainView)
    requires
        chain.well_formed(),
        ecdsa_public_key(chain.signing_key) == Some(chain.verifying_key),
    ensures
        chain.is_valid(),
{
    assert forall|i: int| 1 <= i < chain.blocks.len() implies block_valid(
        chain.blocks,
        i,
        chain.verifying_key,
    ) by {
        assert(chain.blocks[i].verifies(chain.verifying_key));
        assert(chain.blocks[i].digest_intact());
        assert(chain.blocks[i].previous_hash == chain.blocks[i - 1].hash);
    }
}

/// Replacing the payload of a block after the first with a different one
/// leaves a valid ledger valid only where SHA-256 maps the bytes of the
/// block as it was and as it has become, which differ, to one value.
pub proof fn lemma_tampering_needs_collision(chain: ChainView, i: int, payload: Seq<char>)
    requires
        chain.is_valid(),
        1 <= i < chain.blocks.len(),
        payload != chain.blocks[i].data,
        chain.with_payload(i, payload).is_valid(),
    ensures
        chain.blocks[i].with_payload(payload).hashed_bytes() != chain.blocks[i].hashed_bytes(),
        sha256_digest(chain.blocks[i].with_payload(payload).hashed_bytes()) == sha256_digest(
            chain.blocks[i].hashed_bytes(),
        ),
{
    let block = chain.blocks[i];
    let changed = chain.with_payload(i, payload);
    assert(block_valid(chain.blocks, i, chain.verifying_key));
    assert(block_valid(changed.blocks, i, changed.verifying_key));
    assert(changed.blocks[i] == block.with_payload(payload));
    lemma_equal_digests_collide(block.with_payload(payload), block);
}

impl ChainError {
    /// A sentence that names the error.
    pub fn message(&self) -> (text: &'static str)
        ensures
            text@ == match *self {
                ChainError::EmptyChain => "No blocks in the blockchain"@,
                ChainError::ClockUnavailable => "Time went backwards"@,
                ChainError::IndexOverflow => "Block index out of range"@,
                ChainError::NonceSpaceExhausted => "No nonce meets the difficulty"@,
                ChainError::SigningFailed => "Signature operation failed"@,
            },
    {
        match self {
            ChainError::EmptyChain => "No blocks in the blockchain",
            ChainError::ClockUnavailable => "Time went backwards",
            ChainError::IndexOverflow => "Block index out of range",
            ChainError::NonceSpaceExhausted => "No nonce meets the difficulty",
            ChainError::SigningFailed => "Signature operation failed",
        }
    }
}

/// Mines a block with the given fields and signs it with `key`.
pub fn seal_block(
    index: u64,
    timestamp: u128,
    data: String,
    previous_hash: String,
    patient_id: String,
    event_type: String,
    key: &SigningKey,
) -> (block: Result<Block, ChainError>)
    ensures
        match sealed(index, timestamp, data@, previous_hash@, patient_id@, event_type@, key@) {
            Ok(view) => block matches Ok(b) && b@ == view,
            Err(e) => block matches Err(f) && f == e,
        },
        block matches Ok(b) ==> sealed_by(b@, key@),
{
    match Block::new(index, timestamp, data, previous_hash, patient_id, event_type) {
        None => Err(ChainError::NonceSpaceExhausted),
        Some(block) => {
            let mut block = block;
            block.sign_block(key);
            if block.signature.is_some() {
                Ok(block)
            } else {
                Err(ChainError::SigningFailed)
            }
        },
    }
}

impl Blockchain {
    /// A ledger that holds a freshly made genesis block, stamped with the
    /// time that the system clock reads and signed with `signing_key`.
    pub fn new(signing_key: SigningKey, verifying_key: VerifyingKey) -> (chain: Result<
        Blockchain,
        ChainError,
    >)
        ensures
            exists|now: SystemTime|
                chain_view(chain) == ChainView::founded_at_reading(
                    signing_key@,
                    verifying_key@,
                    now,
                ),
            chain matches Ok(c) ==> c@.well_formed(),
    {
        let mut chain = Blockchain { blocks: Vec::new(), signing_key, verifying_key };
        let reading = now_as_millis();
        let ghost now = choose|now: SystemTime| reading == millis_after_epoch(now);
        let made = match reading {
            None => Err(ChainError::ClockUnavailable),
            Some(timestamp) => match chain.create_genesis_block(timestamp) {
                Ok(()) => {
                    assert(chain@.blocks =~= seq![genesis(timestamp, signing_key@)->Ok_0]);
                    Ok(chain)
                },
                Err(e) => Err(e),
            },
        };
        assert(chain_view(made) == ChainView::founded_at_reading(
            signing_key@,
            verifying_key@,
            now,
        ));
        made
    }

    /// Makes the genesis block at `timestamp`, signs it with the ledger's
    /// signing key and puts it at the end of the ledger. On an error the
    /// ledger is unchanged.
    pub fn create_genesis_block(&mut self, timestamp: u128) -> (result: Result<(), ChainError>)
        ensures
            match genesis(timestamp, old(self)@.signing_key) {
                Ok(block) => result is Ok && final(self)@ == (ChainView {
                    blocks: old(self)@.blocks.push(block),
                    ..old(self)@
                }),
                Err(e) => result == Err::<(), ChainError>(e) && final(self)@ == old(self)@,
            },
            result is Ok ==> sealed_by(final(self)@.blocks.last(), old(self)@.signing_key),
            old(self)@.blocks.len() == 0 && result is Ok ==> final(self)@.well_formed(),
    {
        let block = seal_block(
            0,
            timestamp,
            String::from_str("Genesis Block"),
            String::from_str("0"),
            String::from_str("genesis"),
            String::from_str("initialization"),
            &self.signing_key,
        );
        match block {
            Ok(block) => {
                self.blocks.push(block);
                assert(self@.blocks =~= old(self)@.blocks.push(block@));
                Ok(())
            },
            Err(e) => Err(e),
        }
    }

    /// Appends a block with the given payload, stamped with the time that
    /// the system clock reads, mined, and signed with the ledger's signing
    /// key. On an error the ledger is unchanged.
    pub fn add_block(&mut self, data: String, patient_id: String, event_type: String) -> (result:
        Result<(), ChainError>)
        ensures
            old(self)@.blocks.len() == 0 ==> result == Err::<(), ChainError>(
                ChainError::EmptyChain,
            ) && final(self)@ == old(self)@,
            exists|now: SystemTime|
                reflects(
                    old(self)@.appended_at_reading(now, data@, patient_id@, event_type@),
                    old(self)@,
                    result,
                    final(self)@,
                ),
            result is Ok ==> final(self)@.blocks.len() == old(self)@.blocks.len() + 1,
            result is Ok ==> sealed_by(final(self)@.blocks.last(), old(self)@.signing_key),
            result is Ok && old(self)@.is_valid() && ecdsa_public_key(old(self)@.signing_key)
                == Some(old(self)@.verifying_key) ==> final(self)@.is_valid(),
            old(self)@.well_formed() ==> final(self)@.well_formed(),
    {
        if self.blocks.len() == 0 {
            assert(forall|now: SystemTime|
                old(self)@.appended_at_reading(now, data@, patient_id@, event_type@) == Err::<
                    ChainView,
                    ChainError,
                >(ChainError::EmptyChain));
            return Err(ChainError::EmptyChain);
        }
        let reading = now_as_millis();
        let ghost now = choose|now: SystemTime| reading == millis_after_epoch(now);
        let result = match reading {
            None => Err(ChainError::ClockUnavailable),
            Some(timestamp) => self.add_block_at(timestamp, data, patient_id, event_type),
        };
        assert(reflects(
            old(self)@.appended_at_reading(now, data@, patient_id@, event_type@),
            old(self)@,
            result,
            self@,
        ));
        result
    }

    /// Appends a block with the given payload, stamped with `timestamp`,
    /// mined, and signed with the ledger's signing key. On an error the
    /// ledger is unchanged.
    pub fn add_block_at(
        &mut self,
        timestamp: u128,
        data: String,
        patient_id: String,
        event_type: String,
    ) -> (result: Result<(), ChainError>)
        ensures
            reflects(
                old(self)@.appended(timestamp, data@, patient_id@, event_type@),
                old(self)@,
                result,
                final(self)@,
            ),
            result is Ok ==> sealed_by(final(self)@.blocks.last(), old(self)@.signing_key),
            result is Ok && old(self)@.is_valid() && ecdsa_public_key(old(self)@.signing_key)
                == Some(old(self)@.verifying_key) ==> final(self)@.is_valid(),
            old(self)@.well_formed() ==> final(self)@.well_formed(),
            old(self)@.well_formed() ==> result != Err::<(), ChainError>(
                ChainError::EmptyChain,
            ) && result != Err::<(), ChainError>(ChainError::IndexOverflow),
    {
        let count: usize = self.blocks.len();
        if count == 0 {
            return Err(ChainError::EmptyChain);
        }
        let last = &self.blocks[count - 1];
        assert(self@.blocks.last() == last@);
        if last.index == u64::MAX {
            return Err(ChainError::IndexOverflow);
        }
        let block = seal_block(
            last.index + 1,
            timestamp,
            data,
            last.hash.clone(),
            patient_id,
            event_type,
            &self.signing_key,
        );
        match block {
            Ok(block) => {
                self.blocks.push(block);
                assert(self@.blocks =~= old(self)@.blocks.push(block@));
                proof {
                    if old(self)@.is_valid() && ecdsa_public_key(old(self)@.signing_key) == Some(
                        old(self)@.verifying_key,
                    ) {
                        lemma_append_keeps_validity(old(self)@, block@);
                    }
                }
                Ok(())
            },
            Err(e) => Err(e),
        }
    }

    /// Whether the ledger passes validation under its verifying key: it
    /// holds a first block and that block is signed, and every later block
    /// is signed, carries the digest of its own fields and names the digest
    /// of its predecessor. A ledger without blocks does not pass.
    pub fn is_valid(&self) -> (valid: bool)
        ensures
            valid == self@.is_valid(),
    {
        let count: usize = self.blocks.len();
        if count == 0 {
            return false;
        }
        if !self.blocks[0].verify_signature(&self.verifying_key) {
            return false;
        }
        let mut i: usize = 1;
        while i < count
            invariant
                1 <= i <= count,
                count == self.blocks@.len(),
                self@.blocks[0].verifies(self@.verifying_key),
                forall|j: int| 1 <= j < i ==> block_valid(self@.blocks, j, self@.verifying_key),
            decreases count - i,
        {
            let current = &self.blocks[i];
            let previous = &self.blocks[i - 1];
            if !current.verify_signature(&self.verifying_key) {
                assert(!block_valid(self@.blocks, i as int, self@.verifying_key));
                return false;
            }
            let digest = Block::calculate_hash(
                current.index,
                current.timestamp,
                current.data.as_str(),
                current.previous_hash.as_str(),
                current.nonce,
            );
            if !(current.hash == digest) || !(current.previous_hash == previous.hash) {
                assert(!block_valid(self@.blocks, i as int, self@.verifying_key));
                return false;
            }
            assert(block_valid(self@.blocks, i as int, self@.verifying_key));
            i += 1;
        }
        true
    }
}

} // verus!
