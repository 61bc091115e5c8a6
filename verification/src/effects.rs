//! The meaning of each store operation, as a transformation of [`StoreView`].
//!
//! Inserts are insert-if-absent on the table's primary key; deletes of
//! content-addressed rows and uncle headers are conditional on no remaining
//! referencer. Multi-row operations fold over their input in order, exactly
//! as the executable code applies them.

use vstd::prelude::*;

use crate::hashing::{data_hash_of, script_hash_of};
use crate::rows::{
    data_referenced, first_with_number, has_block_tx, has_cell, has_cell_dep, has_data,
    has_header, has_header_dep, has_number, has_proposal, has_script, has_tx, has_uncle_link,
    has_witness, script_referenced, uncle_linked, BlockTxRow, BlockUncleRow, CellDepRow,
    CellRow, Consumption, DataRec, HeaderDepRow, ProposalRow, ScriptRec, StoreView, TxRow,
    WitnessRec,
};
use crate::types::{BlockRec, CellInput, Hash32, Header, OutputRec, ScriptVal, ShortId, TxRec,
    UncleRec};

verus! {

// ------------------------------------------------------------------
// insertion
// ------------------------------------------------------------------
/// Insert the block's own header; a conflict on either the hash key or the
/// unique height leaves the table unchanged.
pub open spec fn eff_insert_block_header(v: StoreView, h: Header) -> StoreView {
    if has_header(v.block_headers, h.hash) || has_number(v.block_headers, h.number) {
        v
    } else {
        StoreView { block_headers: v.block_headers.push(h), ..v }
    }
}

/// Insert an uncle header, keyed by its hash alone.
pub open spec fn eff_insert_uncle_header(v: StoreView, h: Header) -> StoreView {
    if has_header(v.uncle_headers, h.hash) {
        v
    } else {
        StoreView { uncle_headers: v.uncle_headers.push(h), ..v }
    }
}

pub open spec fn eff_insert_block_uncle(v: StoreView, b: Hash32, u: Hash32, idx: usize) -> StoreView {
    if has_uncle_link(v.block_uncles, b, u) {
        v
    } else {
        StoreView {
            block_uncles: v.block_uncles.push(
                BlockUncleRow { block_hash: b, uncle_hash: u, index: idx },
            ),
            ..v
        }
    }
}

/// Link every uncle of the block, in order of appearance.
pub open spec fn eff_insert_block_uncles(v: StoreView, b: Hash32, uncles: Seq<UncleRec>) -> StoreView
    decreases uncles.len(),
{
    if uncles.len() == 0 {
        v
    } else {
        eff_insert_block_uncle(
            eff_insert_block_uncles(v, b, uncles.drop_last()),
            b,
            uncles.last().header.hash,
            (uncles.len() - 1) as usize,
        )
    }
}

pub open spec fn eff_insert_proposal(v: StoreView, c: Hash32, sid: ShortId, idx: usize) -> StoreView {
    if has_proposal(v.block_proposals, c, sid) {
        v
    } else {
        StoreView {
            block_proposals: v.block_proposals.push(
                ProposalRow { block_hash: c, short_id: sid, index: idx },
            ),
            ..v
        }
    }
}

/// Insert the proposals of one container (block or uncle), in order.
pub open spec fn eff_insert_proposals(v: StoreView, c: Hash32, sids: Seq<ShortId>) -> StoreView
    decreases sids.len(),
{
    if sids.len() == 0 {
        v
    } else {
        eff_insert_proposal(
            eff_insert_proposals(v, c, sids.drop_last()),
            c,
            sids.last(),
            (sids.len() - 1) as usize,
        )
    }
}

/// For each uncle in order: its header, then its proposals.
pub open spec fn eff_insert_uncles(v: StoreView, uncles: Seq<UncleRec>) -> StoreView
    decreases uncles.len(),
{
    if uncles.len() == 0 {
        v
    } else {
        let prev = eff_insert_uncles(v, uncles.drop_last());
        let u = uncles.last();
        eff_insert_proposals(eff_insert_uncle_header(prev, u.header), u.header.hash, u.proposals)
    }
}

pub open spec fn eff_insert_block_tx(v: StoreView, b: Hash32, t: Hash32, idx: usize) -> StoreView {
    if has_block_tx(v.block_transactions, b, t) {
        v
    } else {
        StoreView {
            block_transactions: v.block_transactions.push(
                BlockTxRow { block_hash: b, tx_hash: t, index: idx },
            ),
            ..v
        }
    }
}

/// Link every transaction of the block, in order of appearance.
pub open spec fn eff_insert_block_txs(v: StoreView, b: Hash32, txs: Seq<TxRec>) -> StoreView
    decreases txs.len(),
{
    if txs.len() == 0 {
        v
    } else {
        eff_insert_block_tx(
            eff_insert_block_txs(v, b, txs.drop_last()),
            b,
            txs.last().hash,
            (txs.len() - 1) as usize,
        )
    }
}

pub open spec fn eff_insert_cell_dep(
    v: StoreView,
    rt: Hash32,
    ri: usize,
    di: usize,
    d: crate::types::CellDep,
) -> StoreView {
    if has_cell_dep(v.tx_cell_deps, rt, ri, di) {
        v
    } else {
        StoreView {
            tx_cell_deps: v.tx_cell_deps.push(
                CellDepRow {
                    ref_tx_hash: rt,
                    ref_index: ri,
                    ref_dep_index: di,
                    tx_hash: d.out_point.tx_hash,
                    index: d.out_point.index,
                    dep_type: d.dep_type,
                },
            ),
            ..v
        }
    }
}

pub open spec fn eff_insert_cell_deps(
    v: StoreView,
    rt: Hash32,
    ri: usize,
    deps: Seq<crate::types::CellDep>,
) -> StoreView
    decreases deps.len(),
{
    if deps.len() == 0 {
        v
    } else {
        eff_insert_cell_dep(
            eff_insert_cell_deps(v, rt, ri, deps.drop_last()),
            rt,
            ri,
            (deps.len() - 1) as usize,
            deps.last(),
        )
    }
}

pub open spec fn eff_insert_header_dep(
    v: StoreView,
    rt: Hash32,
    ri: usize,
    di: usize,
    h: Hash32,
) -> StoreView {
    if has_header_dep(v.tx_header_deps, rt, ri, di) {
        v
    } else {
        StoreView {
            tx_header_deps: v.tx_header_deps.push(
                HeaderDepRow { ref_tx_hash: rt, ref_index: ri, ref_dep_index: di, block_hash: h },
            ),
            ..v
        }
    }
}

pub open spec fn eff_insert_header_deps(
    v: StoreView,
    rt: Hash32,
    ri: usize,
    hs: Seq<Hash32>,
) -> StoreView
    decreases hs.len(),
{
    if hs.len() == 0 {
        v
    } else {
        eff_insert_header_dep(
            eff_insert_header_deps(v, rt, ri, hs.drop_last()),
            rt,
            ri,
            (hs.len() - 1) as usize,
            hs.last(),
        )
    }
}

pub open spec fn eff_insert_witness(
    v: StoreView,
    rt: Hash32,
    ri: usize,
    di: usize,
    w: Seq<u8>,
) -> StoreView {
    if has_witness(v.tx_witnesses, rt, ri, di) {
        v
    } else {
        StoreView {
            tx_witnesses: v.tx_witnesses.push(
                WitnessRec { ref_tx_hash: rt, ref_index: ri, ref_dep_index: di, witness: w },
            ),
            ..v
        }
    }
}

pub open spec fn eff_insert_witnesses(
    v: StoreView,
    rt: Hash32,
    ri: usize,
    ws: Seq<Seq<u8>>,
) -> StoreView
    decreases ws.len(),
{
    if ws.len() == 0 {
        v
    } else {
        eff_insert_witness(
            eff_insert_witnesses(v, rt, ri, ws.drop_last()),
            rt,
            ri,
            (ws.len() - 1) as usize,
            ws.last(),
        )
    }
}

pub open spec fn eff_insert_tx_row(v: StoreView, t: TxRec) -> StoreView {
    if has_tx(v.transactions, t.hash) {
        v
    } else {
        StoreView {
            transactions: v.transactions.push(TxRow { hash: t.hash, version: t.version }),
            ..v
        }
    }
}

/// One occurrence of a transaction: its dependency rows, witnesses, then the
/// transaction row itself.
pub open spec fn eff_insert_transaction(v: StoreView, t: TxRec, ri: usize) -> StoreView {
    eff_insert_tx_row(
        eff_insert_witnesses(
            eff_insert_header_deps(
                eff_insert_cell_deps(v, t.hash, ri, t.cell_deps),
                t.hash,
                ri,
                t.header_deps,
            ),
            t.hash,
            ri,
            t.witnesses,
        ),
        t,
    )
}

/// Mark the referenced cell, if stored, as consumed by `consumer` at input
/// ordinal `idx`.
pub open spec fn eff_consume_one(
    cells: Seq<CellRow>,
    consumer: Hash32,
    idx: usize,
    inp: CellInput,
) -> Seq<CellRow> {
    cells.map_values(
        |r: CellRow|
            if r.tx_hash == inp.previous_output.tx_hash && r.index == inp.previous_output.index
                as usize {
                CellRow {
                    consumed: Option::Some(
                        Consumption { tx_hash: consumer, index: idx, since: inp.since },
                    ),
                    ..r
                }
            } else {
                r
            },
    )
}

/// Mark every input of the transaction, in order.
pub open spec fn eff_consume_cells(
    cells: Seq<CellRow>,
    consumer: Hash32,
    inputs: Seq<CellInput>,
) -> Seq<CellRow>
    decreases inputs.len(),
{
    if inputs.len() == 0 {
        cells
    } else {
        eff_consume_one(
            eff_consume_cells(cells, consumer, inputs.drop_last()),
            consumer,
            (inputs.len() - 1) as usize,
            inputs.last(),
        )
    }
}

/// Deduplicated insert of a data blob, keyed by its content hash.
pub open spec fn eff_insert_data(v: StoreView, d: Seq<u8>) -> StoreView {
    if has_data(v.cells_data, data_hash_of(d)) {
        v
    } else {
        StoreView { cells_data: v.cells_data.push(DataRec { hash: data_hash_of(d), data: d }), ..v }
    }
}

/// Deduplicated insert of a script, keyed by its content hash.
pub open spec fn eff_insert_script(v: StoreView, s: ScriptVal) -> StoreView {
    if has_script(v.scripts, script_hash_of(s)) {
        v
    } else {
        StoreView {
            scripts: v.scripts.push(
                ScriptRec {
                    hash: script_hash_of(s),
                    code_hash: s.code_hash,
                    hash_type: s.hash_type,
                    args: s.args,
                },
            ),
            ..v
        }
    }
}

/// One output: its data blob, its lock script, its type script if any, then
/// the cell row itself, created unspent.
pub open spec fn eff_insert_cell(
    v: StoreView,
    t: Hash32,
    idx: usize,
    o: OutputRec,
    d: Seq<u8>,
) -> StoreView {
    let v1 = eff_insert_data(v, d);
    let v2 = eff_insert_script(v1, o.lock);
    let v3 = match o.type_script {
        Option::Some(ts) => eff_insert_script(v2, ts),
        Option::None => v2,
    };
    if has_cell(v3.cells, t, idx) {
        v3
    } else {
        StoreView {
            cells: v3.cells.push(
                CellRow {
                    tx_hash: t,
                    index: idx,
                    capacity: o.capacity,
                    lock_hash: script_hash_of(o.lock),
                    type_hash: match o.type_script {
                        Option::Some(ts) => Option::Some(script_hash_of(ts)),
                        Option::None => Option::None,
                    },
                    data_hash: data_hash_of(d),
                    consumed: Option::None,
                },
            ),
            ..v3
        }
    }
}

/// Every output of the transaction, in order.
pub open spec fn eff_insert_cells(
    v: StoreView,
    t: Hash32,
    outputs: Seq<OutputRec>,
    data: Seq<Seq<u8>>,
) -> StoreView
    decreases outputs.len(),
{
    if outputs.len() == 0 {
        v
    } else {
        eff_insert_cell(
            eff_insert_cells(v, t, outputs.drop_last(), data.drop_last()),
            t,
            (outputs.len() - 1) as usize,
            outputs.last(),
            data.last(),
        )
    }
}

/// One transaction at occurrence `i`: its rows, its consumptions (except for
/// the first, reward-carrying transaction), its output cells.
pub open spec fn eff_apply_tx(v: StoreView, t: TxRec, i: usize) -> StoreView {
    let v1 = eff_insert_transaction(v, t, i);
    let v2 = if i != 0 {
        StoreView { cells: eff_consume_cells(v1.cells, t.hash, t.inputs), ..v1 }
    } else {
        v1
    };
    eff_insert_cells(v2, t.hash, t.outputs, t.outputs_data)
}

pub open spec fn eff_apply_txs(v: StoreView, txs: Seq<TxRec>) -> StoreView
    decreases txs.len(),
{
    if txs.len() == 0 {
        v
    } else {
        eff_apply_tx(eff_apply_txs(v, txs.drop_last()), txs.last(), (txs.len() - 1) as usize)
    }
}

/// The whole effect of inserting one block, applied as one atomic unit.
pub open spec fn eff_insert_block(v: StoreView, b: BlockRec) -> StoreView {
    let v1 = eff_insert_block_header(v, b.header);
    let v2 = eff_insert_block_uncles(v1, b.header.hash, b.uncles);
    let v3 = eff_insert_uncles(v2, b.uncles);
    let v4 = eff_insert_proposals(v3, b.header.hash, b.proposals);
    let v5 = eff_insert_block_txs(v4, b.header.hash, b.transactions);
    eff_apply_txs(v5, b.transactions)
}

// ------------------------------------------------------------------
// removal
// ------------------------------------------------------------------
/// The transaction hashes linked to the block, in stored order.
pub open spec fn captured_txs(v: StoreView, b: Hash32) -> Seq<Hash32> {
    v.block_transactions.filter(|r: BlockTxRow| r.block_hash == b).map_values(
        |r: BlockTxRow| r.tx_hash,
    )
}

pub open spec fn eff_del_block_txs(v: StoreView, b: Hash32) -> StoreView {
    StoreView {
        block_transactions: v.block_transactions.filter(|r: BlockTxRow| r.block_hash != b),
        ..v
    }
}

/// Drop every row owned by this transaction hash, in every occurrence.
pub open spec fn eff_remove_transaction(v: StoreView, t: Hash32) -> StoreView {
    StoreView {
        tx_cell_deps: v.tx_cell_deps.filter(|r: CellDepRow| r.ref_tx_hash != t),
        tx_header_deps: v.tx_header_deps.filter(|r: HeaderDepRow| r.ref_tx_hash != t),
        tx_witnesses: v.tx_witnesses.filter(|r: WitnessRec| r.ref_tx_hash != t),
        transactions: v.transactions.filter(|r: TxRow| r.hash != t),
        ..v
    }
}

/// Clear the consumption marker of every cell this transaction had consumed;
/// the cells themselves stay.
pub open spec fn eff_restore_cells(cells: Seq<CellRow>, t: Hash32) -> Seq<CellRow> {
    cells.map_values(
        |r: CellRow|
            if r.consumed matches Option::Some(c) && c.tx_hash == t {
                CellRow { consumed: Option::None, ..r }
            } else {
                r
            },
    )
}

/// Drop the data blob unless some remaining cell still references it.
pub open spec fn eff_gc_data(v: StoreView, h: Hash32) -> StoreView {
    if data_referenced(v.cells, h) {
        v
    } else {
        StoreView { cells_data: v.cells_data.filter(|r: DataRec| r.hash != h), ..v }
    }
}

/// Drop the script unless some remaining cell still references it.
pub open spec fn eff_gc_script(v: StoreView, h: Hash32) -> StoreView {
    if script_referenced(v.cells, h) {
        v
    } else {
        StoreView { scripts: v.scripts.filter(|r: ScriptRec| r.hash != h), ..v }
    }
}

/// After a cell is gone: collect its data blob, its lock script, and its type
/// script if it had one.
pub open spec fn eff_gc_cell(v: StoreView, r: CellRow) -> StoreView {
    let v1 = eff_gc_data(v, r.data_hash);
    let v2 = eff_gc_script(v1, r.lock_hash);
    match r.type_hash {
        Option::Some(t) => eff_gc_script(v2, t),
        Option::None => v2,
    }
}

pub open spec fn eff_gc_cells(v: StoreView, rows: Seq<CellRow>) -> StoreView
    decreases rows.len(),
{
    if rows.len() == 0 {
        v
    } else {
        eff_gc_cell(eff_gc_cells(v, rows.drop_last()), rows.last())
    }
}

/// Delete the cells of this transaction, then collect newly orphaned
/// content-addressed rows, one deleted cell at a time.
pub open spec fn eff_remove_cells(v: StoreView, t: Hash32) -> StoreView {
    let rows = v.cells.filter(|r: CellRow| r.tx_hash == t);
    let v1 = StoreView { cells: v.cells.filter(|r: CellRow| r.tx_hash != t), ..v };
    eff_gc_cells(v1, rows)
}

/// Everything removal does for one captured transaction.
pub open spec fn eff_remove_tx_full(v: StoreView, t: Hash32) -> StoreView {
    let v1 = eff_remove_transaction(v, t);
    let v2 = StoreView { cells: eff_restore_cells(v1.cells, t), ..v1 };
    eff_remove_cells(v2, t)
}

pub open spec fn eff_remove_txs(v: StoreView, ts: Seq<Hash32>) -> StoreView
    decreases ts.len(),
{
    if ts.len() == 0 {
        v
    } else {
        eff_remove_tx_full(eff_remove_txs(v, ts.drop_last()), ts.last())
    }
}

/// Drop the proposals of a container, unless it still exists as a block
/// header or as a linked uncle.
pub open spec fn eff_remove_block_proposals(v: StoreView, c: Hash32) -> StoreView {
    if has_header(v.block_headers, c) || uncle_linked(v.block_uncles, c) {
        v
    } else {
        StoreView {
            block_proposals: v.block_proposals.filter(|r: ProposalRow| r.block_hash != c),
            ..v
        }
    }
}

/// Drop the proposals of the removed block's own container. The block's
/// header falls in the same atomic unit, so only a remaining block-to-uncle
/// link referencing the container keeps them alive.
pub open spec fn eff_remove_own_proposals(v: StoreView, c: Hash32) -> StoreView {
    if uncle_linked(v.block_uncles, c) {
        v
    } else {
        StoreView {
            block_proposals: v.block_proposals.filter(|r: ProposalRow| r.block_hash != c),
            ..v
        }
    }
}

/// The uncle hashes linked to the block, in stored order.
pub open spec fn captured_uncles(v: StoreView, b: Hash32) -> Seq<Hash32> {
    v.block_uncles.filter(|r: BlockUncleRow| r.block_hash == b).map_values(
        |r: BlockUncleRow| r.uncle_hash,
    )
}

pub open spec fn eff_del_block_uncles(v: StoreView, b: Hash32) -> StoreView {
    StoreView { block_uncles: v.block_uncles.filter(|r: BlockUncleRow| r.block_hash != b), ..v }
}

/// Drop an uncle header unless another block still links it.
pub open spec fn eff_remove_uncle_header(v: StoreView, u: Hash32) -> StoreView {
    if uncle_linked(v.block_uncles, u) {
        v
    } else {
        StoreView { uncle_headers: v.uncle_headers.filter(|r: Header| r.hash != u), ..v }
    }
}

/// For each captured uncle hash: its header if now unlinked, then its
/// proposals if its container is gone.
pub open spec fn eff_remove_uncles(v: StoreView, us: Seq<Hash32>) -> StoreView
    decreases us.len(),
{
    if us.len() == 0 {
        v
    } else {
        let prev = eff_remove_uncles(v, us.drop_last());
        eff_remove_block_proposals(eff_remove_uncle_header(prev, us.last()), us.last())
    }
}

pub open spec fn eff_del_block_header(v: StoreView, h: Hash32) -> StoreView {
    StoreView { block_headers: v.block_headers.filter(|r: Header| r.hash != h), ..v }
}

/// The hash of the stored block at this height, if any.
pub open spec fn block_hash_at(v: StoreView, number: u64) -> Option<Hash32> {
    match first_with_number(v.block_headers, number) {
        Option::Some(h) => Option::Some(h.hash),
        Option::None => Option::None,
    }
}

/// The hash a rejected block's parent was expected to carry: the stored
/// header's hash when one sits at the previous height, else the candidate's
/// own declared parent hash.
pub open spec fn expected_parent_hash(v: StoreView, h: Header) -> Hash32 {
    match block_hash_at(v, (h.number - 1) as u64) {
        Option::Some(p) => p,
        Option::None => h.parent_hash,
    }
}

/// The whole effect of removing the block at this height, in strict reverse
/// dependency order; a height with no stored block changes nothing.
pub open spec fn eff_remove_block(v: StoreView, number: u64) -> StoreView {
    match block_hash_at(v, number) {
        Option::None => v,
        Option::Some(h) => {
            let ts = captured_txs(v, h);
            let v1 = eff_del_block_txs(v, h);
            let v2 = eff_remove_txs(v1, ts);
            let v3 = eff_remove_own_proposals(v2, h);
            let us = captured_uncles(v3, h);
            let v4 = eff_del_block_uncles(v3, h);
            let v5 = eff_remove_uncles(v4, us);
            eff_del_block_header(v5, h)
        },
    }
}


// ------------------------------------------------------------------
// structural facts
// ------------------------------------------------------------------
proof fn lemma_schema_insert_block_uncles(v: StoreView, b: Hash32, us: Seq<UncleRec>)
    ensures
        eff_insert_block_uncles(v, b, us).schema == v.schema,
    decreases us.len(),
{
    if us.len() > 0 {
        lemma_schema_insert_block_uncles(v, b, us.drop_last());
    }
}

proof fn lemma_schema_insert_proposals(v: StoreView, c: Hash32, sids: Seq<ShortId>)
    ensures
        eff_insert_proposals(v, c, sids).schema == v.schema,
    decreases sids.len(),
{
    if sids.len() > 0 {
        lemma_schema_insert_proposals(v, c, sids.drop_last());
    }
}

proof fn lemma_schema_insert_uncles(v: StoreView, us: Seq<UncleRec>)
    ensures
        eff_insert_uncles(v, us).schema == v.schema,
    decreases us.len(),
{
    if us.len() > 0 {
        lemma_schema_insert_uncles(v, us.drop_last());
        let prev = eff_insert_uncles(v, us.drop_last());
        lemma_schema_insert_proposals(
            eff_insert_uncle_header(prev, us.last().header),
            us.last().header.hash,
            us.last().proposals,
        );
    }
}

proof fn lemma_schema_insert_block_txs(v: StoreView, b: Hash32, ts: Seq<TxRec>)
    ensures
        eff_insert_block_txs(v, b, ts).schema == v.schema,
    decreases ts.len(),
{
    if ts.len() > 0 {
        lemma_schema_insert_block_txs(v, b, ts.drop_last());
    }
}

proof fn lemma_schema_insert_cell_deps(v: StoreView, rt: Hash32, ri: usize, ds: Seq<crate::types::CellDep>)
    ensures
        eff_insert_cell_deps(v, rt, ri, ds).schema == v.schema,
    decreases ds.len(),
{
    if ds.len() > 0 {
        lemma_schema_insert_cell_deps(v, rt, ri, ds.drop_last());
    }
}

proof fn lemma_schema_insert_header_deps(v: StoreView, rt: Hash32, ri: usize, hs: Seq<Hash32>)
    ensures
        eff_insert_header_deps(v, rt, ri, hs).schema == v.schema,
    decreases hs.len(),
{
    if hs.len() > 0 {
        lemma_schema_insert_header_deps(v, rt, ri, hs.drop_last());
    }
}

proof fn lemma_schema_insert_witnesses(v: StoreView, rt: Hash32, ri: usize, ws: Seq<Seq<u8>>)
    ensures
        eff_insert_witnesses(v, rt, ri, ws).schema == v.schema,
    decreases ws.len(),
{
    if ws.len() > 0 {
        lemma_schema_insert_witnesses(v, rt, ri, ws.drop_last());
    }
}

proof fn lemma_schema_insert_transaction(v: StoreView, t: TxRec, ri: usize)
    ensures
        eff_insert_transaction(v, t, ri).schema == v.schema,
{
    lemma_schema_insert_cell_deps(v, t.hash, ri, t.cell_deps);
    let v1 = eff_insert_cell_deps(v, t.hash, ri, t.cell_deps);
    lemma_schema_insert_header_deps(v1, t.hash, ri, t.header_deps);
    let v2 = eff_insert_header_deps(v1, t.hash, ri, t.header_deps);
    lemma_schema_insert_witnesses(v2, t.hash, ri, t.witnesses);
}

proof fn lemma_schema_insert_cells(v: StoreView, t: Hash32, os: Seq<OutputRec>, ds: Seq<Seq<u8>>)
    ensures
        eff_insert_cells(v, t, os, ds).schema == v.schema,
    decreases os.len(),
{
    if os.len() > 0 {
        lemma_schema_insert_cells(v, t, os.drop_last(), ds.drop_last());
    }
}

proof fn lemma_schema_apply_txs(v: StoreView, ts: Seq<TxRec>)
    ensures
        eff_apply_txs(v, ts).schema == v.schema,
    decreases ts.len(),
{
    if ts.len() > 0 {
        lemma_schema_apply_txs(v, ts.drop_last());
        let prev = eff_apply_txs(v, ts.drop_last());
        let t = ts.last();
        let i = (ts.len() - 1) as usize;
        lemma_schema_insert_transaction(prev, t, i);
        let v1 = eff_insert_transaction(prev, t, i);
        let v2 = if i != 0 {
            StoreView { cells: eff_consume_cells(v1.cells, t.hash, t.inputs), ..v1 }
        } else {
            v1
        };
        lemma_schema_insert_cells(v2, t.hash, t.outputs, t.outputs_data);
    }
}

/// Inserting a block never touches the schema flag.
pub proof fn lemma_schema_insert_block(v: StoreView, b: BlockRec)
    ensures
        eff_insert_block(v, b).schema == v.schema,
{
    let v1 = eff_insert_block_header(v, b.header);
    lemma_schema_insert_block_uncles(v1, b.header.hash, b.uncles);
    let v2 = eff_insert_block_uncles(v1, b.header.hash, b.uncles);
    lemma_schema_insert_uncles(v2, b.uncles);
    let v3 = eff_insert_uncles(v2, b.uncles);
    lemma_schema_insert_proposals(v3, b.header.hash, b.proposals);
    let v4 = eff_insert_proposals(v3, b.header.hash, b.proposals);
    lemma_schema_insert_block_txs(v4, b.header.hash, b.transactions);
    let v5 = eff_insert_block_txs(v4, b.header.hash, b.transactions);
    lemma_schema_apply_txs(v5, b.transactions);
}

proof fn lemma_schema_gc_cells(v: StoreView, rows: Seq<CellRow>)
    ensures
        eff_gc_cells(v, rows).schema == v.schema,
    decreases rows.len(),
{
    if rows.len() > 0 {
        lemma_schema_gc_cells(v, rows.drop_last());
    }
}

proof fn lemma_schema_remove_txs(v: StoreView, ts: Seq<Hash32>)
    ensures
        eff_remove_txs(v, ts).schema == v.schema,
    decreases ts.len(),
{
    if ts.len() > 0 {
        lemma_schema_remove_txs(v, ts.drop_last());
        let prev = eff_remove_txs(v, ts.drop_last());
        let t = ts.last();
        let v1 = eff_remove_transaction(prev, t);
        let v2 = StoreView { cells: eff_restore_cells(v1.cells, t), ..v1 };
        lemma_schema_gc_cells(
            StoreView { cells: v2.cells.filter(|r: CellRow| r.tx_hash != t), ..v2 },
            v2.cells.filter(|r: CellRow| r.tx_hash == t),
        );
    }
}

proof fn lemma_schema_remove_uncles(v: StoreView, us: Seq<Hash32>)
    ensures
        eff_remove_uncles(v, us).schema == v.schema,
    decreases us.len(),
{
    if us.len() > 0 {
        lemma_schema_remove_uncles(v, us.drop_last());
    }
}

/// Removing a block never touches the schema flag.
pub proof fn lemma_schema_remove_block(v: StoreView, number: u64)
    ensures
        eff_remove_block(v, number).schema == v.schema,
{
    match block_hash_at(v, number) {
        Option::None => {},
        Option::Some(h) => {
            let ts = captured_txs(v, h);
            let v1 = eff_del_block_txs(v, h);
            lemma_schema_remove_txs(v1, ts);
            let v2 = eff_remove_txs(v1, ts);
            let v3 = eff_remove_own_proposals(v2, h);
            let us = captured_uncles(v3, h);
            let v4 = eff_del_block_uncles(v3, h);
            lemma_schema_remove_uncles(v4, us);
        },
    }
}

} // verus!
