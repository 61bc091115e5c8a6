//! The relational schema, one row type per table, and its spec-level view.
//!
//! The store is a set of twelve tables. Row order inside a table carries no
//! meaning for the schema, but the view keeps it, so contracts can state that
//! an operation leaves untouched rows exactly where they were.

use vstd::prelude::*;

use crate::types::{Hash32, Header, ShortId};

verus! {

/// A block-to-uncle link at an ordinal position.
#[derive(Clone, Copy, PartialEq, Eq, Structural, Debug)]
pub struct BlockUncleRow {
    pub block_hash: Hash32,
    pub uncle_hash: Hash32,
    pub index: usize,
}

/// A proposal short id attached to a block or uncle.
#[derive(Clone, Copy, PartialEq, Eq, Structural, Debug)]
pub struct ProposalRow {
    pub block_hash: Hash32,
    pub short_id: ShortId,
    pub index: usize,
}

/// A block-to-transaction link at an ordinal position.
#[derive(Clone, Copy, PartialEq, Eq, Structural, Debug)]
pub struct BlockTxRow {
    pub block_hash: Hash32,
    pub tx_hash: Hash32,
    pub index: usize,
}

/// A transaction row.
#[derive(Clone, Copy, PartialEq, Eq, Structural, Debug)]
pub struct TxRow {
    pub hash: Hash32,
    pub version: u32,
}

/// A cell dependency of one occurrence of a transaction.
#[derive(Clone, Copy, PartialEq, Eq, Structural, Debug)]
pub struct CellDepRow {
    pub ref_tx_hash: Hash32,
    pub ref_index: usize,
    pub ref_dep_index: usize,
    pub tx_hash: Hash32,
    pub index: u32,
    pub dep_type: u8,
}

/// A header dependency of one occurrence of a transaction.
#[derive(Clone, Copy, PartialEq, Eq, Structural, Debug)]
pub struct HeaderDepRow {
    pub ref_tx_hash: Hash32,
    pub ref_index: usize,
    pub ref_dep_index: usize,
    pub block_hash: Hash32,
}

/// A witness of one occurrence of a transaction.
#[derive(Clone, Debug)]
pub struct WitnessRow {
    pub ref_tx_hash: Hash32,
    pub ref_index: usize,
    pub ref_dep_index: usize,
    pub witness: Vec<u8>,
}

/// Spec-level mirror of [`WitnessRow`].
#[verifier::ext_equal]
pub struct WitnessRec {
    pub ref_tx_hash: Hash32,
    pub ref_index: usize,
    pub ref_dep_index: usize,
    pub witness: Seq<u8>,
}

impl WitnessRow {
    pub open spec fn rec(self) -> WitnessRec {
        WitnessRec {
            ref_tx_hash: self.ref_tx_hash,
            ref_index: self.ref_index,
            ref_dep_index: self.ref_dep_index,
            witness: self.witness@,
        }
    }
}

/// The consumption marker of a spent cell: all three fields are set together
/// when the cell is spent and cleared together when the spender is rolled
/// back.
#[derive(Clone, Copy, PartialEq, Eq, Structural, Debug)]
pub struct Consumption {
    pub tx_hash: Hash32,
    pub index: usize,
    pub since: u64,
}

/// A cell row: one spendable output instance.
#[derive(Clone, Copy, PartialEq, Eq, Structural, Debug)]
pub struct CellRow {
    pub tx_hash: Hash32,
    pub index: usize,
    pub capacity: u64,
    pub lock_hash: Hash32,
    pub type_hash: Option<Hash32>,
    pub data_hash: Hash32,
    pub consumed: Option<Consumption>,
}

/// A content-addressed data blob row.
#[derive(Clone, Debug)]
pub struct DataRow {
    pub hash: Hash32,
    pub data: Vec<u8>,
}

/// Spec-level mirror of [`DataRow`].
#[verifier::ext_equal]
pub struct DataRec {
    pub hash: Hash32,
    pub data: Seq<u8>,
}

impl DataRow {
    pub open spec fn rec(self) -> DataRec {
        DataRec { hash: self.hash, data: self.data@ }
    }
}

/// A content-addressed script row.
#[derive(Clone, Debug)]
pub struct ScriptRow {
    pub hash: Hash32,
    pub code_hash: Hash32,
    pub hash_type: u8,
    pub args: Vec<u8>,
}

/// Spec-level mirror of [`ScriptRow`].
#[verifier::ext_equal]
pub struct ScriptRec {
    pub hash: Hash32,
    pub code_hash: Hash32,
    pub hash_type: u8,
    pub args: Seq<u8>,
}

impl ScriptRow {
    pub open spec fn rec(self) -> ScriptRec {
        ScriptRec {
            hash: self.hash,
            code_hash: self.code_hash,
            hash_type: self.hash_type,
            args: self.args@,
        }
    }
}

/// The abstract state of the whole store: whether the schema exists, and the
/// contents of each table.
#[verifier::ext_equal]
pub struct StoreView {
    pub schema: bool,
    pub block_headers: Seq<Header>,
    pub block_uncles: Seq<BlockUncleRow>,
    pub uncle_headers: Seq<Header>,
    pub block_proposals: Seq<ProposalRow>,
    pub block_transactions: Seq<BlockTxRow>,
    pub transactions: Seq<TxRow>,
    pub tx_cell_deps: Seq<CellDepRow>,
    pub tx_header_deps: Seq<HeaderDepRow>,
    pub tx_witnesses: Seq<WitnessRec>,
    pub cells: Seq<CellRow>,
    pub cells_data: Seq<DataRec>,
    pub scripts: Seq<ScriptRec>,
}

impl StoreView {
    /// The state before the schema has ever been created.
    pub open spec fn init() -> StoreView {
        StoreView {
            schema: false,
            block_headers: Seq::empty(),
            block_uncles: Seq::empty(),
            uncle_headers: Seq::empty(),
            block_proposals: Seq::empty(),
            block_transactions: Seq::empty(),
            transactions: Seq::empty(),
            tx_cell_deps: Seq::empty(),
            tx_header_deps: Seq::empty(),
            tx_witnesses: Seq::empty(),
            cells: Seq::empty(),
            cells_data: Seq::empty(),
            scripts: Seq::empty(),
        }
    }

    /// A created, still empty schema.
    pub open spec fn empty_schema() -> StoreView {
        StoreView { schema: true, ..StoreView::init() }
    }
}

/// A header with this hash is stored.
pub open spec fn has_header(s: Seq<Header>, h: Hash32) -> bool {
    exists|i: int| 0 <= i < s.len() && (#[trigger] s[i]).hash == h
}

/// A header with this height is stored.
pub open spec fn has_number(s: Seq<Header>, n: u64) -> bool {
    exists|i: int| 0 <= i < s.len() && (#[trigger] s[i]).number == n
}

/// The first stored header with this height, if any.
pub open spec fn first_with_number(s: Seq<Header>, n: u64) -> Option<Header>
    decreases s.len(),
{
    if s.len() == 0 {
        Option::None
    } else if s.first().number == n {
        Option::Some(s.first())
    } else {
        first_with_number(s.drop_first(), n)
    }
}

/// A stored header at height `h.number - 1` carries `h.parent_hash`.
pub open spec fn parent_present(s: Seq<Header>, h: Header) -> bool {
    exists|i: int|
        0 <= i < s.len() && (#[trigger] s[i]).number == h.number - 1 && s[i].hash == h.parent_hash
}

pub open spec fn has_uncle_link(s: Seq<BlockUncleRow>, b: Hash32, u: Hash32) -> bool {
    exists|i: int| 0 <= i < s.len() && (#[trigger] s[i]).block_hash == b && s[i].uncle_hash == u
}

/// Some block still references this uncle hash.
pub open spec fn uncle_linked(s: Seq<BlockUncleRow>, u: Hash32) -> bool {
    exists|i: int| 0 <= i < s.len() && (#[trigger] s[i]).uncle_hash == u
}

pub open spec fn has_proposal(s: Seq<ProposalRow>, c: Hash32, sid: ShortId) -> bool {
    exists|i: int| 0 <= i < s.len() && (#[trigger] s[i]).block_hash == c && s[i].short_id == sid
}

pub open spec fn has_block_tx(s: Seq<BlockTxRow>, b: Hash32, t: Hash32) -> bool {
    exists|i: int| 0 <= i < s.len() && (#[trigger] s[i]).block_hash == b && s[i].tx_hash == t
}

pub open spec fn has_tx(s: Seq<TxRow>, h: Hash32) -> bool {
    exists|i: int| 0 <= i < s.len() && (#[trigger] s[i]).hash == h
}

pub open spec fn has_cell_dep(s: Seq<CellDepRow>, rt: Hash32, ri: usize, di: usize) -> bool {
    exists|i: int|
        0 <= i < s.len() && (#[trigger] s[i]).ref_tx_hash == rt && s[i].ref_index == ri
            && s[i].ref_dep_index == di
}

pub open spec fn has_header_dep(s: Seq<HeaderDepRow>, rt: Hash32, ri: usize, di: usize) -> bool {
    exists|i: int|
        0 <= i < s.len() && (#[trigger] s[i]).ref_tx_hash == rt && s[i].ref_index == ri
            && s[i].ref_dep_index == di
}

pub open spec fn has_witness(s: Seq<WitnessRec>, rt: Hash32, ri: usize, di: usize) -> bool {
    exists|i: int|
        0 <= i < s.len() && (#[trigger] s[i]).ref_tx_hash == rt && s[i].ref_index == ri
            && s[i].ref_dep_index == di
}

pub open spec fn has_cell(s: Seq<CellRow>, t: Hash32, idx: usize) -> bool {
    exists|i: int| 0 <= i < s.len() && (#[trigger] s[i]).tx_hash == t && s[i].index == idx
}

pub open spec fn has_data(s: Seq<DataRec>, h: Hash32) -> bool {
    exists|i: int| 0 <= i < s.len() && (#[trigger] s[i]).hash == h
}

pub open spec fn has_script(s: Seq<ScriptRec>, h: Hash32) -> bool {
    exists|i: int| 0 <= i < s.len() && (#[trigger] s[i]).hash == h
}

/// Some cell still references this data blob.
pub open spec fn data_referenced(cells: Seq<CellRow>, h: Hash32) -> bool {
    exists|i: int| 0 <= i < cells.len() && (#[trigger] cells[i]).data_hash == h
}

/// Some cell still references this script, as lock or as type.
pub open spec fn script_referenced(cells: Seq<CellRow>, h: Hash32) -> bool {
    exists|i: int|
        0 <= i < cells.len() && ((#[trigger] cells[i]).lock_hash == h || cells[i].type_hash
            == Option::Some(h))
}

/// The highest stored block height, if any block is stored.
pub open spec fn tip_of(s: Seq<Header>) -> Option<u64>
    decreases s.len(),
{
    if s.len() == 0 {
        Option::None
    } else {
        match tip_of(s.drop_last()) {
            Option::None => Option::Some(s.last().number),
            Option::Some(m) => Option::Some(if s.last().number > m {
                s.last().number
            } else {
                m
            }),
        }
    }
}

/// Primary-key uniqueness of every table.
pub open spec fn basic_inv(v: StoreView) -> bool {
    &&& forall|i: int, j: int|
        0 <= i < j < v.block_headers.len() ==> (#[trigger] v.block_headers[i]).hash != (
        #[trigger] v.block_headers[j]).hash && v.block_headers[i].number
            != v.block_headers[j].number
    &&& forall|i: int, j: int|
        0 <= i < j < v.uncle_headers.len() ==> (#[trigger] v.uncle_headers[i]).hash != (
        #[trigger] v.uncle_headers[j]).hash
    &&& forall|i: int, j: int|
        0 <= i < j < v.block_uncles.len() ==> !((#[trigger] v.block_uncles[i]).block_hash == (
        #[trigger] v.block_uncles[j]).block_hash && v.block_uncles[i].uncle_hash
            == v.block_uncles[j].uncle_hash)
    &&& forall|i: int, j: int|
        0 <= i < j < v.block_proposals.len() ==> !((#[trigger] v.block_proposals[i]).block_hash
            == (#[trigger] v.block_proposals[j]).block_hash && v.block_proposals[i].short_id
            == v.block_proposals[j].short_id)
    &&& forall|i: int, j: int|
        0 <= i < j < v.block_transactions.len() ==> !((
        #[trigger] v.block_transactions[i]).block_hash == (
        #[trigger] v.block_transactions[j]).block_hash && v.block_transactions[i].tx_hash
            == v.block_transactions[j].tx_hash)
    &&& forall|i: int, j: int|
        0 <= i < j < v.transactions.len() ==> (#[trigger] v.transactions[i]).hash != (
        #[trigger] v.transactions[j]).hash
    &&& forall|i: int, j: int|
        0 <= i < j < v.tx_cell_deps.len() ==> !((#[trigger] v.tx_cell_deps[i]).ref_tx_hash == (
        #[trigger] v.tx_cell_deps[j]).ref_tx_hash && v.tx_cell_deps[i].ref_index
            == v.tx_cell_deps[j].ref_index && v.tx_cell_deps[i].ref_dep_index
            == v.tx_cell_deps[j].ref_dep_index)
    &&& forall|i: int, j: int|
        0 <= i < j < v.tx_header_deps.len() ==> !((#[trigger] v.tx_header_deps[i]).ref_tx_hash
            == (#[trigger] v.tx_header_deps[j]).ref_tx_hash && v.tx_header_deps[i].ref_index
            == v.tx_header_deps[j].ref_index && v.tx_header_deps[i].ref_dep_index
            == v.tx_header_deps[j].ref_dep_index)
    &&& forall|i: int, j: int|
        0 <= i < j < v.tx_witnesses.len() ==> !((#[trigger] v.tx_witnesses[i]).ref_tx_hash == (
        #[trigger] v.tx_witnesses[j]).ref_tx_hash && v.tx_witnesses[i].ref_index
            == v.tx_witnesses[j].ref_index && v.tx_witnesses[i].ref_dep_index
            == v.tx_witnesses[j].ref_dep_index)
    &&& forall|i: int, j: int|
        0 <= i < j < v.cells.len() ==> !((#[trigger] v.cells[i]).tx_hash == (
        #[trigger] v.cells[j]).tx_hash && v.cells[i].index == v.cells[j].index)
    &&& forall|i: int, j: int|
        0 <= i < j < v.cells_data.len() ==> (#[trigger] v.cells_data[i]).hash != (
        #[trigger] v.cells_data[j]).hash
    &&& forall|i: int, j: int|
        0 <= i < j < v.scripts.len() ==> (#[trigger] v.scripts[i]).hash != (
        #[trigger] v.scripts[j]).hash
}

/// Referential well-formedness: content-addressed rows are alive only while
/// referenced, uncle headers only while linked, and consumers, dependency
/// owners and cell owners are stored transactions.
pub open spec fn ref_inv(v: StoreView) -> bool {
    &&& forall|i: int|
        0 <= i < v.cells_data.len() ==> data_referenced(
            v.cells,
            (#[trigger] v.cells_data[i]).hash,
        )
    &&& forall|i: int|
        0 <= i < v.scripts.len() ==> script_referenced(v.cells, (#[trigger] v.scripts[i]).hash)
    &&& forall|i: int|
        0 <= i < v.cells.len() ==> has_data(v.cells_data, (#[trigger] v.cells[i]).data_hash)
    &&& forall|i: int|
        0 <= i < v.cells.len() ==> has_script(v.scripts, (#[trigger] v.cells[i]).lock_hash)
    &&& forall|i: int|
        0 <= i < v.cells.len() ==> ((#[trigger] v.cells[i]).type_hash matches Option::Some(t)
            ==> has_script(v.scripts, t))
    &&& forall|i: int|
        0 <= i < v.uncle_headers.len() ==> uncle_linked(
            v.block_uncles,
            (#[trigger] v.uncle_headers[i]).hash,
        )
    &&& forall|i: int|
        0 <= i < v.block_uncles.len() ==> has_header(
            v.block_headers,
            (#[trigger] v.block_uncles[i]).block_hash,
        )
    &&& forall|i: int|
        0 <= i < v.block_proposals.len() ==> has_header(
            v.block_headers,
            (#[trigger] v.block_proposals[i]).block_hash,
        ) || uncle_linked(v.block_uncles, v.block_proposals[i].block_hash)
    &&& forall|i: int|
        0 <= i < v.block_transactions.len() ==> has_header(
            v.block_headers,
            (#[trigger] v.block_transactions[i]).block_hash,
        )
    &&& forall|i: int|
        0 <= i < v.cells.len() ==> has_tx(v.transactions, (#[trigger] v.cells[i]).tx_hash)
    &&& forall|i: int|
        0 <= i < v.cells.len() ==> ((#[trigger] v.cells[i]).consumed matches Option::Some(c)
            ==> has_tx(v.transactions, c.tx_hash))
    &&& forall|i: int|
        0 <= i < v.tx_cell_deps.len() ==> has_tx(
            v.transactions,
            (#[trigger] v.tx_cell_deps[i]).ref_tx_hash,
        )
    &&& forall|i: int|
        0 <= i < v.tx_header_deps.len() ==> has_tx(
            v.transactions,
            (#[trigger] v.tx_header_deps[i]).ref_tx_hash,
        )
    &&& forall|i: int|
        0 <= i < v.tx_witnesses.len() ==> has_tx(
            v.transactions,
            (#[trigger] v.tx_witnesses[i]).ref_tx_hash,
        )
}

} // verus!
