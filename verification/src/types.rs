//! Plain-value models of the chain data handed to the persistence engine.
//!
//! All hash-valued fields are fixed 32-byte identifiers, held here as four
//! 64-bit words in little-endian word order; the byte-level encoding lives in
//! `codec`. Byte blobs (script args, witnesses, cell data) are plain byte
//! vectors. Each type that owns a byte vector has a spec-level record mirror
//! whose fields are mathematical sequences; contracts speak of those mirrors.

use vstd::prelude::*;

verus! {

/// A fixed 32-byte identifier, as four little-endian 64-bit words.
#[derive(Clone, Copy, PartialEq, Eq, Structural, Debug)]
pub struct Hash32 {
    pub w0: u64,
    pub w1: u64,
    pub w2: u64,
    pub w3: u64,
}

/// A fixed 10-byte proposal short id, as a little-endian word pair.
#[derive(Clone, Copy, PartialEq, Eq, Structural, Debug)]
pub struct ShortId {
    pub w0: u64,
    pub w1: u16,
}

/// The packed reward-accounting tuple carried by every header.
#[derive(Clone, Copy, PartialEq, Eq, Structural, Debug)]
pub struct Dao {
    pub c: u64,
    pub ar: u64,
    pub s: u64,
    pub u: u64,
}

/// The fixed-shape metadata record identifying a block or uncle.
#[derive(Clone, Copy, PartialEq, Eq, Structural, Debug)]
pub struct Header {
    pub hash: Hash32,
    pub version: u32,
    pub compact_target: u32,
    pub timestamp: u64,
    pub number: u64,
    pub epoch_number: u32,
    pub epoch_index: u32,
    pub epoch_length: u32,
    pub parent_hash: Hash32,
    pub transactions_root: Hash32,
    pub proposals_hash: Hash32,
    pub uncles_hash: Hash32,
    pub dao: Dao,
    pub nonce: u128,
}

/// A reference to one output of a transaction.
#[derive(Clone, Copy, PartialEq, Eq, Structural, Debug)]
pub struct OutPoint {
    pub tx_hash: Hash32,
    pub index: u32,
}

/// A transaction's reference to a cell it depends on.
#[derive(Clone, Copy, PartialEq, Eq, Structural, Debug)]
pub struct CellDep {
    pub out_point: OutPoint,
    pub dep_type: u8,
}

/// A transaction input: the out-point it consumes and its raw `since` value.
#[derive(Clone, Copy, PartialEq, Eq, Structural, Debug)]
pub struct CellInput {
    pub previous_output: OutPoint,
    pub since: u64,
}

/// A lock or type script: content-addressed by the digest of its fields.
#[derive(Clone, Debug)]
pub struct Script {
    pub code_hash: Hash32,
    pub hash_type: u8,
    pub args: Vec<u8>,
}

/// Spec-level mirror of [`Script`].
#[verifier::ext_equal]
pub struct ScriptVal {
    pub code_hash: Hash32,
    pub hash_type: u8,
    pub args: Seq<u8>,
}

impl Script {
    pub open spec fn rec(self) -> ScriptVal {
        ScriptVal { code_hash: self.code_hash, hash_type: self.hash_type, args: self.args@ }
    }
}

/// One spendable output produced by a transaction.
#[derive(Clone, Debug)]
pub struct CellOutput {
    pub capacity: u64,
    pub lock: Script,
    pub type_script: Option<Script>,
}

/// Spec-level mirror of [`CellOutput`].
#[verifier::ext_equal]
pub struct OutputRec {
    pub capacity: u64,
    pub lock: ScriptVal,
    pub type_script: Option<ScriptVal>,
}

impl CellOutput {
    pub open spec fn rec(self) -> OutputRec {
        OutputRec {
            capacity: self.capacity,
            lock: self.lock.rec(),
            type_script: match self.type_script {
                Option::Some(s) => Option::Some(s.rec()),
                Option::None => Option::None,
            },
        }
    }
}

/// A transaction as handed over by the remote source.
#[derive(Clone, Debug)]
pub struct Transaction {
    pub hash: Hash32,
    pub version: u32,
    pub cell_deps: Vec<CellDep>,
    pub header_deps: Vec<Hash32>,
    pub witnesses: Vec<Vec<u8>>,
    pub inputs: Vec<CellInput>,
    pub outputs: Vec<CellOutput>,
    pub outputs_data: Vec<Vec<u8>>,
}

/// Spec-level mirror of [`Transaction`].
#[verifier::ext_equal]
pub struct TxRec {
    pub hash: Hash32,
    pub version: u32,
    pub cell_deps: Seq<CellDep>,
    pub header_deps: Seq<Hash32>,
    pub witnesses: Seq<Seq<u8>>,
    pub inputs: Seq<CellInput>,
    pub outputs: Seq<OutputRec>,
    pub outputs_data: Seq<Seq<u8>>,
}

impl Transaction {
    pub open spec fn rec(self) -> TxRec {
        TxRec {
            hash: self.hash,
            version: self.version,
            cell_deps: self.cell_deps@,
            header_deps: self.header_deps@,
            witnesses: self.witnesses@.map_values(|w: Vec<u8>| w@),
            inputs: self.inputs@,
            outputs: self.outputs@.map_values(|o: CellOutput| o.rec()),
            outputs_data: self.outputs_data@.map_values(|d: Vec<u8>| d@),
        }
    }

    /// Every output comes with its data blob.
    pub open spec fn wf(self) -> bool {
        self.outputs@.len() == self.outputs_data@.len()
    }
}

/// An alternate, acknowledged-but-not-canonical block referenced by a
/// canonical block.
#[derive(Clone, Debug)]
pub struct Uncle {
    pub header: Header,
    pub proposals: Vec<ShortId>,
}

/// Spec-level mirror of [`Uncle`].
#[verifier::ext_equal]
pub struct UncleRec {
    pub header: Header,
    pub proposals: Seq<ShortId>,
}

impl Uncle {
    pub open spec fn rec(self) -> UncleRec {
        UncleRec { header: self.header, proposals: self.proposals@ }
    }
}

/// A full block as handed over by the remote source.
#[derive(Clone, Debug)]
pub struct Block {
    pub header: Header,
    pub uncles: Vec<Uncle>,
    pub proposals: Vec<ShortId>,
    pub transactions: Vec<Transaction>,
}

/// Spec-level mirror of [`Block`].
#[verifier::ext_equal]
pub struct BlockRec {
    pub header: Header,
    pub uncles: Seq<UncleRec>,
    pub proposals: Seq<ShortId>,
    pub transactions: Seq<TxRec>,
}

impl Block {
    pub open spec fn rec(self) -> BlockRec {
        BlockRec {
            header: self.header,
            uncles: self.uncles@.map_values(|u: Uncle| u.rec()),
            proposals: self.proposals@,
            transactions: self.transactions@.map_values(|t: Transaction| t.rec()),
        }
    }

    /// Every transaction pairs its outputs with their data blobs.
    pub open spec fn wf(self) -> bool {
        forall|i: int|
            0 <= i < self.transactions@.len() ==> (#[trigger] self.transactions@[i]).wf()
    }
}

} // verus!
