//! Laws of the persistence engine, proved over the operation effects.
//!
//! Chain contiguity is the `ensures` of `Storage::insert_block` itself; the
//! laws here relate several operations: what the tip query reports after an
//! insertion or a removal, that rolling a block back restores the consumption
//! state of the cells its transactions had spent, and that content-addressed
//! rows survive removal exactly while still referenced.

use vstd::prelude::*;

use crate::effects::{
    block_hash_at, captured_txs, captured_uncles, eff_apply_txs, eff_consume_cells,
    eff_del_block_txs, eff_del_block_uncles, eff_gc_cells, eff_gc_data, eff_insert_block,
    eff_insert_block_header, eff_insert_block_txs, eff_insert_block_uncles, eff_insert_cells,
    eff_insert_data, eff_insert_proposals, eff_insert_transaction, eff_insert_uncles,
    eff_remove_block, eff_remove_transaction, eff_remove_tx_full, eff_remove_txs,
    eff_remove_uncles, eff_restore_cells,
};
use crate::rows::{
    basic_inv, data_referenced, first_with_number, has_data, has_header, has_number, tip_of,
    CellRow, StoreView,
};
use crate::types::{BlockRec, Hash32, Header, OutputRec, ShortId, TxRec, UncleRec};

verus! {

// ------------------------------------------------------------------
// frame lemmas: which tables each phase of an operation can touch
// ------------------------------------------------------------------
/// Linking uncles touches only the `block_uncles` table.
pub proof fn frame_insert_block_uncles(v: StoreView, b: Hash32, us: Seq<UncleRec>)
    ensures
        eff_insert_block_uncles(v, b, us) == (StoreView {
            block_uncles: eff_insert_block_uncles(v, b, us).block_uncles,
            ..v
        }),
    decreases us.len(),
{
    if us.len() > 0 {
        frame_insert_block_uncles(v, b, us.drop_last());
    }
}

/// Inserting proposals touches only the `block_proposals` table.
pub proof fn frame_insert_proposals(v: StoreView, c: Hash32, sids: Seq<ShortId>)
    ensures
        eff_insert_proposals(v, c, sids) == (StoreView {
            block_proposals: eff_insert_proposals(v, c, sids).block_proposals,
            ..v
        }),
    decreases sids.len(),
{
    if sids.len() > 0 {
        frame_insert_proposals(v, c, sids.drop_last());
    }
}

/// Inserting uncle headers and their proposals touches only those two
/// tables.
pub proof fn frame_insert_uncles(v: StoreView, us: Seq<UncleRec>)
    ensures
        eff_insert_uncles(v, us) == (StoreView {
            uncle_headers: eff_insert_uncles(v, us).uncle_headers,
            block_proposals: eff_insert_uncles(v, us).block_proposals,
            ..v
        }),
    decreases us.len(),
{
    if us.len() > 0 {
        frame_insert_uncles(v, us.drop_last());
        let prev = eff_insert_uncles(v, us.drop_last());
        let u = us.last();
        frame_insert_proposals(
            crate::effects::eff_insert_uncle_header(prev, u.header),
            u.header.hash,
            u.proposals,
        );
    }
}

/// Linking transactions touches only the `block_transactions` table.
pub proof fn frame_insert_block_txs(v: StoreView, b: Hash32, ts: Seq<TxRec>)
    ensures
        eff_insert_block_txs(v, b, ts) == (StoreView {
            block_transactions: eff_insert_block_txs(v, b, ts).block_transactions,
            ..v
        }),
    decreases ts.len(),
{
    if ts.len() > 0 {
        frame_insert_block_txs(v, b, ts.drop_last());
    }
}

/// One occurrence of a transaction touches only its four own tables.
pub proof fn frame_insert_transaction(v: StoreView, t: TxRec, ri: usize)
    ensures
        eff_insert_transaction(v, t, ri) == (StoreView {
            tx_cell_deps: eff_insert_transaction(v, t, ri).tx_cell_deps,
            tx_header_deps: eff_insert_transaction(v, t, ri).tx_header_deps,
            tx_witnesses: eff_insert_transaction(v, t, ri).tx_witnesses,
            transactions: eff_insert_transaction(v, t, ri).transactions,
            ..v
        }),
{
    frame_insert_cell_deps(v, t.hash, ri, t.cell_deps);
    let v1 = crate::effects::eff_insert_cell_deps(v, t.hash, ri, t.cell_deps);
    frame_insert_header_deps(v1, t.hash, ri, t.header_deps);
    let v2 = crate::effects::eff_insert_header_deps(v1, t.hash, ri, t.header_deps);
    frame_insert_witnesses(v2, t.hash, ri, t.witnesses);
}

pub proof fn frame_insert_cell_deps(v: StoreView, rt: Hash32, ri: usize, ds: Seq<crate::types::CellDep>)
    ensures
        crate::effects::eff_insert_cell_deps(v, rt, ri, ds) == (StoreView {
            tx_cell_deps: crate::effects::eff_insert_cell_deps(v, rt, ri, ds).tx_cell_deps,
            ..v
        }),
    decreases ds.len(),
{
    if ds.len() > 0 {
        frame_insert_cell_deps(v, rt, ri, ds.drop_last());
    }
}

pub proof fn frame_insert_header_deps(v: StoreView, rt: Hash32, ri: usize, hs: Seq<Hash32>)
    ensures
        crate::effects::eff_insert_header_deps(v, rt, ri, hs) == (StoreView {
            tx_header_deps: crate::effects::eff_insert_header_deps(v, rt, ri, hs).tx_header_deps,
            ..v
        }),
    decreases hs.len(),
{
    if hs.len() > 0 {
        frame_insert_header_deps(v, rt, ri, hs.drop_last());
    }
}

pub proof fn frame_insert_witnesses(v: StoreView, rt: Hash32, ri: usize, ws: Seq<Seq<u8>>)
    ensures
        crate::effects::eff_insert_witnesses(v, rt, ri, ws) == (StoreView {
            tx_witnesses: crate::effects::eff_insert_witnesses(v, rt, ri, ws).tx_witnesses,
            ..v
        }),
    decreases ws.len(),
{
    if ws.len() > 0 {
        frame_insert_witnesses(v, rt, ri, ws.drop_last());
    }
}

/// Inserting output cells touches only the cells, data and scripts tables.
pub proof fn frame_insert_cells(v: StoreView, t: Hash32, os: Seq<OutputRec>, ds: Seq<Seq<u8>>)
    ensures
        eff_insert_cells(v, t, os, ds) == (StoreView {
            cells: eff_insert_cells(v, t, os, ds).cells,
            cells_data: eff_insert_cells(v, t, os, ds).cells_data,
            scripts: eff_insert_cells(v, t, os, ds).scripts,
            ..v
        }),
    decreases os.len(),
{
    if os.len() > 0 {
        frame_insert_cells(v, t, os.drop_last(), ds.drop_last());
    }
}

/// Applying the transactions of a block leaves the header, uncle, proposal
/// and link tables alone.
pub proof fn frame_apply_txs(v: StoreView, ts: Seq<TxRec>)
    ensures
        eff_apply_txs(v, ts) == (StoreView {
            transactions: eff_apply_txs(v, ts).transactions,
            tx_cell_deps: eff_apply_txs(v, ts).tx_cell_deps,
            tx_header_deps: eff_apply_txs(v, ts).tx_header_deps,
            tx_witnesses: eff_apply_txs(v, ts).tx_witnesses,
            cells: eff_apply_txs(v, ts).cells,
            cells_data: eff_apply_txs(v, ts).cells_data,
            scripts: eff_apply_txs(v, ts).scripts,
            ..v
        }),
    decreases ts.len(),
{
    if ts.len() > 0 {
        frame_apply_txs(v, ts.drop_last());
        let prev = eff_apply_txs(v, ts.drop_last());
        let t = ts.last();
        let i = (ts.len() - 1) as usize;
        frame_insert_transaction(prev, t, i);
        let v1 = eff_insert_transaction(prev, t, i);
        let v2 = if i != 0 {
            StoreView { cells: eff_consume_cells(v1.cells, t.hash, t.inputs), ..v1 }
        } else {
            v1
        };
        frame_insert_cells(v2, t.hash, t.outputs, t.outputs_data);
    }
}

/// Inserting a block leaves `block_headers` as the header insert alone left
/// it.
pub proof fn frame_insert_block_headers_table(v: StoreView, b: BlockRec)
    ensures
        eff_insert_block(v, b).block_headers == eff_insert_block_header(v, b.header).block_headers,
        eff_insert_block(v, b).schema == v.schema,
{
    let v1 = eff_insert_block_header(v, b.header);
    frame_insert_block_uncles(v1, b.header.hash, b.uncles);
    let v2 = eff_insert_block_uncles(v1, b.header.hash, b.uncles);
    frame_insert_uncles(v2, b.uncles);
    let v3 = eff_insert_uncles(v2, b.uncles);
    frame_insert_proposals(v3, b.header.hash, b.proposals);
    let v4 = eff_insert_proposals(v3, b.header.hash, b.proposals);
    frame_insert_block_txs(v4, b.header.hash, b.transactions);
    let v5 = eff_insert_block_txs(v4, b.header.hash, b.transactions);
    frame_apply_txs(v5, b.transactions);
}

/// Collecting orphaned content-addressed rows touches only the data and
/// script tables.
pub proof fn frame_gc_cells(v: StoreView, rows: Seq<CellRow>)
    ensures
        eff_gc_cells(v, rows) == (StoreView {
            cells_data: eff_gc_cells(v, rows).cells_data,
            scripts: eff_gc_cells(v, rows).scripts,
            ..v
        }),
    decreases rows.len(),
{
    if rows.len() > 0 {
        frame_gc_cells(v, rows.drop_last());
    }
}

/// Removing the captured transactions touches only the transaction-owned
/// tables, the cells, and the content-addressed tables.
pub proof fn frame_remove_txs(v: StoreView, ts: Seq<Hash32>)
    ensures
        eff_remove_txs(v, ts) == (StoreView {
            transactions: eff_remove_txs(v, ts).transactions,
            tx_cell_deps: eff_remove_txs(v, ts).tx_cell_deps,
            tx_header_deps: eff_remove_txs(v, ts).tx_header_deps,
            tx_witnesses: eff_remove_txs(v, ts).tx_witnesses,
            cells: eff_remove_txs(v, ts).cells,
            cells_data: eff_remove_txs(v, ts).cells_data,
            scripts: eff_remove_txs(v, ts).scripts,
            ..v
        }),
    decreases ts.len(),
{
    if ts.len() > 0 {
        frame_remove_txs(v, ts.drop_last());
        let prev = eff_remove_txs(v, ts.drop_last());
        let t = ts.last();
        let v1 = eff_remove_transaction(prev, t);
        let v2 = StoreView { cells: eff_restore_cells(v1.cells, t), ..v1 };
        let rows = v2.cells.filter(|r: CellRow| r.tx_hash == t);
        frame_gc_cells(StoreView { cells: v2.cells.filter(|r: CellRow| r.tx_hash != t), ..v2 }, rows);
    }
}

/// Removing captured uncles touches only the uncle-header and proposal
/// tables.
pub proof fn frame_remove_uncles(v: StoreView, us: Seq<Hash32>)
    ensures
        eff_remove_uncles(v, us) == (StoreView {
            uncle_headers: eff_remove_uncles(v, us).uncle_headers,
            block_proposals: eff_remove_uncles(v, us).block_proposals,
            ..v
        }),
    decreases us.len(),
{
    if us.len() > 0 {
        frame_remove_uncles(v, us.drop_last());
    }
}

// ------------------------------------------------------------------
// the tip query
// ------------------------------------------------------------------
/// A reported tip is the height of some stored header.
pub proof fn lemma_tip_of_is_stored(s: Seq<Header>)
    ensures
        tip_of(s) matches Option::Some(m) ==> has_number(s, m),
        tip_of(s) is None <==> s.len() == 0,
    decreases s.len(),
{
    if s.len() > 0 {
        lemma_tip_of_is_stored(s.drop_last());
        let m = tip_of(s)->Some_0;
        match tip_of(s.drop_last()) {
            Option::Some(m0) => {
                if m == m0 {
                    let i = choose|i: int|
                        0 <= i < s.drop_last().len() && (#[trigger] s.drop_last()[i]).number
                            == m0;
                    assert(s[i].number == m);
                } else {
                    assert(s[s.len() - 1].number == m);
                }
            },
            Option::None => {
                assert(s[s.len() - 1].number == m);
            },
        }
    }
}

/// No stored header is higher than the reported tip.
pub proof fn lemma_tip_of_is_max(s: Seq<Header>, i: int)
    requires
        0 <= i < s.len(),
    ensures
        tip_of(s) matches Option::Some(m) && s[i].number <= m,
    decreases s.len(),
{
    if i < s.len() - 1 {
        lemma_tip_of_is_max(s.drop_last(), i);
        assert(s.drop_last()[i] == s[i]);
    }
}

/// The tip query reports exactly the height that is stored and not exceeded.
pub proof fn lemma_tip_of_exact(s: Seq<Header>, m: u64)
    requires
        has_number(s, m),
        forall|i: int| 0 <= i < s.len() ==> (#[trigger] s[i]).number <= m,
    ensures
        tip_of(s) == Option::Some(m),
{
    lemma_tip_of_is_stored(s);
    let i = choose|i: int| 0 <= i < s.len() && (#[trigger] s[i]).number == m;
    lemma_tip_of_is_max(s, i);
    let reported = tip_of(s)->Some_0;
    let j = choose|j: int| 0 <= j < s.len() && (#[trigger] s[j]).number == reported;
}

// ------------------------------------------------------------------
// monotonic height query
// ------------------------------------------------------------------
/// Inserting a block above every stored height moves the reported tip to
/// exactly that height.
pub proof fn lemma_tip_after_insert_block(v: StoreView, b: BlockRec)
    requires
        !has_header(v.block_headers, b.header.hash),
        forall|i: int|
            0 <= i < v.block_headers.len() ==> (#[trigger] v.block_headers[i]).number
                < b.header.number,
    ensures
        tip_of(eff_insert_block(v, b).block_headers) == Option::Some(b.header.number),
{
    frame_insert_block_headers_table(v, b);
    let s2 = eff_insert_block_header(v, b.header).block_headers;
    assert(!has_number(v.block_headers, b.header.number));
    assert(s2 == v.block_headers.push(b.header));
    assert(s2[s2.len() - 1].number == b.header.number);
    assert(has_number(s2, b.header.number));
    assert(forall|i: int|
        0 <= i < s2.len() - 1 ==> (#[trigger] s2[i]).number < b.header.number) by {
        assert(forall|i: int|
            0 <= i < v.block_headers.len() ==> s2[i] == (#[trigger] v.block_headers[i]));
    }
    lemma_tip_of_exact(s2, b.header.number);
}

/// The header found at a height carries that height.
pub proof fn lemma_first_with_number_found(s: Seq<Header>, n: u64)
    ensures
        first_with_number(s, n) matches Option::Some(h) ==> h.number == n && s.contains(h),
        first_with_number(s, n) is Some <==> has_number(s, n),
    decreases s.len(),
{
    if s.len() > 0 {
        lemma_first_with_number_found(s.drop_first(), n);
        if s.first().number == n {
            assert(s[0].number == n);
            assert(s[0] == s.first());
        } else {
            if first_with_number(s.drop_first(), n) is Some {
                let h = first_with_number(s.drop_first(), n)->Some_0;
                let i = choose|i: int|
                    0 <= i < s.drop_first().len() && (#[trigger] s.drop_first()[i]) == h;
                assert(s[i + 1] == h);
            }
            if has_number(s, n) {
                let i = choose|i: int| 0 <= i < s.len() && (#[trigger] s[i]).number == n;
                assert(s.drop_first()[i - 1].number == n);
            }
        }
    }
}

/// Removing the block that sits at the highest stored height moves the
/// reported tip down to the next stored height.
pub proof fn lemma_tip_after_remove_block(v: StoreView, n: u64, m: u64)
    requires
        basic_inv(v),
        has_number(v.block_headers, n),
        has_number(v.block_headers, m),
        m < n,
        forall|i: int|
            0 <= i < v.block_headers.len() ==> (#[trigger] v.block_headers[i]).number == n
                || v.block_headers[i].number <= m,
    ensures
        tip_of(eff_remove_block(v, n).block_headers) == Option::Some(m),
{
    lemma_first_with_number_found(v.block_headers, n);
    let h = first_with_number(v.block_headers, n)->Some_0;
    let hh = h.hash;
    assert(block_hash_at(v, n) == Option::Some(hh));
    // only the final header delete touches the block_headers table
    let ts = captured_txs(v, hh);
    let v1 = eff_del_block_txs(v, hh);
    frame_remove_txs(v1, ts);
    let v2 = eff_remove_txs(v1, ts);
    let v3 = crate::effects::eff_remove_own_proposals(v2, hh);
    let us = captured_uncles(v3, hh);
    let v4 = eff_del_block_uncles(v3, hh);
    frame_remove_uncles(v4, us);
    let v5 = eff_remove_uncles(v4, us);
    assert(v5.block_headers == v.block_headers);
    let s2 = eff_remove_block(v, n).block_headers;
    assert(s2 == v.block_headers.filter(|r: Header| r.hash != hh));
    // the survivors are exactly the stored headers other than the one at n
    let hi = choose|i: int|
        0 <= i < v.block_headers.len() && (#[trigger] v.block_headers[i]) == h;
    assert(v.block_headers[hi].number == n);
    broadcast use vstd::seq_lib::group_filter_ensures;

    let pred = |r: Header| r.hash != hh;
    assert(forall|i: int| 0 <= i < s2.len() ==> (#[trigger] s2[i]).number <= m) by {
        assert(forall|i: int| 0 <= i < s2.len() ==> v.block_headers.contains(#[trigger] s2[i]))
            by {
            assert(forall|i: int|
                0 <= i < s2.len() ==> #[trigger] v.block_headers.filter(pred).contains(
                    s2[i],
                )) by {
                assert(forall|i: int|
                    0 <= i < s2.len() ==> s2[i] == #[trigger] v.block_headers.filter(pred)[i]);
            }
            assert forall|i: int| 0 <= i < s2.len() implies v.block_headers.contains(
                #[trigger] s2[i],
            ) by {
                v.block_headers.lemma_filter_contains_rev(pred, s2[i]);
            }
        }
        assert forall|i: int| 0 <= i < s2.len() implies (#[trigger] s2[i]).number <= m by {
            let j = choose|j: int|
                0 <= j < v.block_headers.len() && (#[trigger] v.block_headers[j]) == s2[i];
            assert(pred(s2[i]));
            if v.block_headers[j].number == n {
                if j != hi {
                    assert(false);
                }
            }
        }
    }
    assert(has_number(s2, m)) by {
        let mi = choose|i: int|
            0 <= i < v.block_headers.len() && (#[trigger] v.block_headers[i]).number == m;
        assert(v.block_headers[mi].hash != hh) by {
            if v.block_headers[mi].hash == hh {
                if mi != hi {
                    assert(false);
                }
            }
        }
        v.block_headers.lemma_filter_contains(pred, mi);
        let k = choose|k: int| 0 <= k < s2.len() && (#[trigger] s2[k]) == v.block_headers[mi];
        assert(s2[k].number == m);
    }
    lemma_tip_of_exact(s2, m);
}


// ------------------------------------------------------------------
// rollback restores consumption state
// ------------------------------------------------------------------
/// Clearing one transaction's consumption markers: a cell it had consumed
/// reappears unspent, any other cell reappears unchanged.
proof fn lemma_restore_keeps(cells: Seq<CellRow>, t: Hash32, c: CellRow)
    requires
        cells.contains(c),
    ensures
        (c.consumed matches Option::Some(x) && x.tx_hash == t) ==> eff_restore_cells(
            cells,
            t,
        ).contains(CellRow { consumed: Option::None, ..c }),
        !(c.consumed matches Option::Some(x) && x.tx_hash == t) ==> eff_restore_cells(
            cells,
            t,
        ).contains(c),
{
    let i = choose|i: int| 0 <= i < cells.len() && cells[i] == c;
    assert(eff_restore_cells(cells, t)[i] == if c.consumed matches Option::Some(x) && x.tx_hash
        == t {
        CellRow { consumed: Option::None, ..c }
    } else {
        c
    });
}

/// A cell owned by another transaction survives the whole per-transaction
/// removal; if the removed transaction had consumed it, it survives with its
/// consumption cleared.
proof fn lemma_remove_tx_full_cells(v: StoreView, t: Hash32, c: CellRow)
    requires
        v.cells.contains(c),
        c.tx_hash != t,
    ensures
        (c.consumed matches Option::Some(x) && x.tx_hash == t) ==> eff_remove_tx_full(
            v,
            t,
        ).cells.contains(CellRow { consumed: Option::None, ..c }),
        !(c.consumed matches Option::Some(x) && x.tx_hash == t) ==> eff_remove_tx_full(
            v,
            t,
        ).cells.contains(c),
{
    let v1 = eff_remove_transaction(v, t);
    assert(v1.cells == v.cells);
    lemma_restore_keeps(v1.cells, t, c);
    let v2 = StoreView { cells: eff_restore_cells(v1.cells, t), ..v1 };
    let kept = if c.consumed matches Option::Some(x) && x.tx_hash == t {
        CellRow { consumed: Option::None, ..c }
    } else {
        c
    };
    assert(v2.cells.contains(kept));
    let pred = |r: CellRow| r.tx_hash != t;
    let i = choose|i: int| 0 <= i < v2.cells.len() && v2.cells[i] == kept;
    v2.cells.lemma_filter_contains(pred, i);
    let v3 = StoreView { cells: v2.cells.filter(|r: CellRow| r.tx_hash != t), ..v2 };
    frame_gc_cells(v3, v2.cells.filter(|r: CellRow| r.tx_hash == t));
}

/// Through the removal of a whole list of transactions, a cell owned by none
/// of them survives; once the transaction that had consumed it is processed,
/// it is unspent, and nothing re-consumes it.
proof fn lemma_remove_txs_restores(v: StoreView, ts: Seq<Hash32>, c: CellRow)
    requires
        v.cells.contains(c),
        !ts.contains(c.tx_hash),
    ensures
        (c.consumed matches Option::Some(x) && ts.contains(x.tx_hash)) ==> eff_remove_txs(
            v,
            ts,
        ).cells.contains(CellRow { consumed: Option::None, ..c }),
        !(c.consumed matches Option::Some(x) && ts.contains(x.tx_hash)) ==> eff_remove_txs(
            v,
            ts,
        ).cells.contains(c),
    decreases ts.len(),
{
    if ts.len() > 0 {
        let prefix = ts.drop_last();
        let last = ts.last();
        assert(forall|i: int| 0 <= i < prefix.len() ==> prefix[i] == ts[i]);
        assert(!prefix.contains(c.tx_hash)) by {
            if prefix.contains(c.tx_hash) {
                let i = choose|i: int| 0 <= i < prefix.len() && prefix[i] == c.tx_hash;
                assert(ts[i] == c.tx_hash);
            }
        }
        lemma_remove_txs_restores(v, prefix, c);
        let mid = eff_remove_txs(v, prefix);
        assert(c.tx_hash != last) by {
            assert(ts[ts.len() - 1] == last);
        }
        match c.consumed {
            Option::Some(x) => {
                if ts.contains(x.tx_hash) {
                    let restored = CellRow { consumed: Option::None, ..c };
                    if prefix.contains(x.tx_hash) {
                        assert(mid.cells.contains(restored));
                        lemma_remove_tx_full_cells(mid, last, restored);
                        assert(eff_remove_txs(v, ts).cells.contains(restored));
                    } else {
                        assert(mid.cells.contains(c));
                        let xi = choose|i: int| 0 <= i < ts.len() && ts[i] == x.tx_hash;
                        assert(x.tx_hash == last) by {
                            if xi < ts.len() - 1 {
                                assert(prefix[xi] == x.tx_hash);
                            }
                        }
                        lemma_remove_tx_full_cells(mid, last, c);
                    }
                } else {
                    assert(!prefix.contains(x.tx_hash)) by {
                        if prefix.contains(x.tx_hash) {
                            let i = choose|i: int| 0 <= i < prefix.len() && prefix[i] == x.tx_hash;
                            assert(ts[i] == x.tx_hash);
                        }
                    }
                    assert(x.tx_hash != last) by {
                        assert(ts[ts.len() - 1] == last);
                    }
                    assert(mid.cells.contains(c));
                    lemma_remove_tx_full_cells(mid, last, c);
                }
            },
            Option::None => {
                assert(mid.cells.contains(c));
                lemma_remove_tx_full_cells(mid, last, c);
            },
        }
    }
}

/// Rollback restores consumption state: if a transaction of the removed
/// block had consumed a cell belonging to another block, removing the block
/// leaves the cell's own row intact with all consumption fields cleared; a
/// cell untouched by the block survives unchanged.
pub proof fn lemma_rollback_restores_consumption(v: StoreView, height: u64, c: CellRow)
    requires
        block_hash_at(v, height) is Some,
        v.cells.contains(c),
        !captured_txs(v, block_hash_at(v, height)->Some_0).contains(c.tx_hash),
    ensures
        (c.consumed matches Option::Some(x) && captured_txs(
            v,
            block_hash_at(v, height)->Some_0,
        ).contains(x.tx_hash)) ==> eff_remove_block(v, height).cells.contains(
            CellRow { consumed: Option::None, ..c },
        ),
        !(c.consumed matches Option::Some(x) && captured_txs(
            v,
            block_hash_at(v, height)->Some_0,
        ).contains(x.tx_hash)) ==> eff_remove_block(v, height).cells.contains(c),
{
    let h = block_hash_at(v, height)->Some_0;
    let ts = captured_txs(v, h);
    let v1 = eff_del_block_txs(v, h);
    assert(v1.cells == v.cells);
    lemma_remove_txs_restores(v1, ts, c);
    let v2 = eff_remove_txs(v1, ts);
    let v3 = crate::effects::eff_remove_own_proposals(v2, h);
    assert(v3.cells == v2.cells);
    let us = captured_uncles(v3, h);
    let v4 = eff_del_block_uncles(v3, h);
    frame_remove_uncles(v4, us);
    let v5 = eff_remove_uncles(v4, us);
    assert(eff_remove_block(v, height).cells == v2.cells);
}

// ------------------------------------------------------------------
// content-addressed deduplication
// ------------------------------------------------------------------
/// A data row, once present, survives the insertion of output cells.
proof fn lemma_insert_cells_keeps_data(
    v: StoreView,
    t: Hash32,
    os: Seq<OutputRec>,
    ds: Seq<Seq<u8>>,
    hh: Hash32,
)
    requires
        has_data(v.cells_data, hh),
    ensures
        has_data(eff_insert_cells(v, t, os, ds).cells_data, hh),
    decreases os.len(),
{
    if os.len() > 0 {
        lemma_insert_cells_keeps_data(v, t, os.drop_last(), ds.drop_last(), hh);
        let prev = eff_insert_cells(v, t, os.drop_last(), ds.drop_last());
        let i = choose|i: int| 0 <= i < prev.cells_data.len() && (#[trigger] prev.cells_data[i]).hash == hh;
        let d1 = eff_insert_data(prev, ds.last());
        assert(d1.cells_data[i].hash == hh);
    }
}

/// A data row, once present, survives the application of transactions.
proof fn lemma_apply_txs_keeps_data(v: StoreView, ts: Seq<TxRec>, hh: Hash32)
    requires
        has_data(v.cells_data, hh),
    ensures
        has_data(eff_apply_txs(v, ts).cells_data, hh),
    decreases ts.len(),
{
    if ts.len() > 0 {
        lemma_apply_txs_keeps_data(v, ts.drop_last(), hh);
        let prev = eff_apply_txs(v, ts.drop_last());
        let t = ts.last();
        let i = (ts.len() - 1) as usize;
        frame_insert_transaction(prev, t, i);
        let v1 = eff_insert_transaction(prev, t, i);
        let v2 = if i != 0 {
            StoreView { cells: eff_consume_cells(v1.cells, t.hash, t.inputs), ..v1 }
        } else {
            v1
        };
        lemma_insert_cells_keeps_data(v2, t.hash, t.outputs, t.outputs_data, hh);
    }
}

/// Inserting the outputs of one transaction stores the data row for each of
/// its blobs.
proof fn lemma_insert_cells_adds_data(
    v: StoreView,
    t: Hash32,
    os: Seq<OutputRec>,
    ds: Seq<Seq<u8>>,
    k: int,
)
    requires
        0 <= k < os.len(),
        ds.len() == os.len(),
    ensures
        has_data(eff_insert_cells(v, t, os, ds).cells_data, crate::hashing::data_hash_of(ds[k])),
    decreases os.len(),
{
    let hh = crate::hashing::data_hash_of(ds[k]);
    if k == os.len() - 1 {
        let prev = eff_insert_cells(v, t, os.drop_last(), ds.drop_last());
        let d1 = eff_insert_data(prev, ds.last());
        if has_data(prev.cells_data, hh) {
        } else {
            assert(d1.cells_data[d1.cells_data.len() - 1].hash == hh);
        }
    } else {
        assert(ds.drop_last()[k] == ds[k]);
        lemma_insert_cells_adds_data(v, t, os.drop_last(), ds.drop_last(), k);
        let prev = eff_insert_cells(v, t, os.drop_last(), ds.drop_last());
        let i = choose|i: int| 0 <= i < prev.cells_data.len() && (#[trigger] prev.cells_data[i]).hash == hh;
        let d1 = eff_insert_data(prev, ds.last());
        assert(d1.cells_data[i].hash == hh);
    }
}

/// Applying the transactions of a block stores the data row for every output
/// blob of every transaction.
proof fn lemma_apply_txs_adds_data(v: StoreView, ts: Seq<TxRec>, j: int, k: int)
    requires
        0 <= j < ts.len(),
        0 <= k < ts[j].outputs_data.len(),
        ts[j].outputs.len() == ts[j].outputs_data.len(),
    ensures
        has_data(
            eff_apply_txs(v, ts).cells_data,
            crate::hashing::data_hash_of(ts[j].outputs_data[k]),
        ),
    decreases ts.len(),
{
    let hh = crate::hashing::data_hash_of(ts[j].outputs_data[k]);
    let prev = eff_apply_txs(v, ts.drop_last());
    let t = ts.last();
    let i = (ts.len() - 1) as usize;
    frame_insert_transaction(prev, t, i);
    let v1 = eff_insert_transaction(prev, t, i);
    let v2 = if i != 0 {
        StoreView { cells: eff_consume_cells(v1.cells, t.hash, t.inputs), ..v1 }
    } else {
        v1
    };
    if j == ts.len() - 1 {
        lemma_insert_cells_adds_data(v2, t.hash, t.outputs, t.outputs_data, k);
    } else {
        assert(ts.drop_last()[j] == ts[j]);
        lemma_apply_txs_adds_data(v, ts.drop_last(), j, k);
        lemma_insert_cells_keeps_data(v2, t.hash, t.outputs, t.outputs_data, hh);
    }
}

/// Data keys stay pairwise distinct through the insertion of output cells.
proof fn lemma_insert_cells_data_unique(v: StoreView, t: Hash32, os: Seq<OutputRec>, ds: Seq<Seq<u8>>)
    requires
        forall|i: int, j: int|
            0 <= i < j < v.cells_data.len() ==> (#[trigger] v.cells_data[i]).hash != (
            #[trigger] v.cells_data[j]).hash,
    ensures
        forall|i: int, j: int|
            0 <= i < j < eff_insert_cells(v, t, os, ds).cells_data.len() ==> (
            #[trigger] eff_insert_cells(v, t, os, ds).cells_data[i]).hash != (
            #[trigger] eff_insert_cells(v, t, os, ds).cells_data[j]).hash,
    decreases os.len(),
{
    if os.len() > 0 {
        lemma_insert_cells_data_unique(v, t, os.drop_last(), ds.drop_last());
        let prev = eff_insert_cells(v, t, os.drop_last(), ds.drop_last());
        let d1 = eff_insert_data(prev, ds.last());
        assert(forall|i: int, j: int|
            0 <= i < j < d1.cells_data.len() ==> (#[trigger] d1.cells_data[i]).hash != (
            #[trigger] d1.cells_data[j]).hash) by {
            if !has_data(prev.cells_data, crate::hashing::data_hash_of(ds.last())) {
                assert(forall|i: int|
                    0 <= i < prev.cells_data.len() ==> (#[trigger] prev.cells_data[i]).hash
                        != crate::hashing::data_hash_of(ds.last()));
                assert(forall|i: int|
                    0 <= i < prev.cells_data.len() ==> d1.cells_data[i] == (
                    #[trigger] prev.cells_data[i]));
            }
        }
    }
}

/// Data keys stay pairwise distinct through the application of transactions.
proof fn lemma_apply_txs_data_unique(v: StoreView, ts: Seq<TxRec>)
    requires
        forall|i: int, j: int|
            0 <= i < j < v.cells_data.len() ==> (#[trigger] v.cells_data[i]).hash != (
            #[trigger] v.cells_data[j]).hash,
    ensures
        forall|i: int, j: int|
            0 <= i < j < eff_apply_txs(v, ts).cells_data.len() ==> (
            #[trigger] eff_apply_txs(v, ts).cells_data[i]).hash != (
            #[trigger] eff_apply_txs(v, ts).cells_data[j]).hash,
    decreases ts.len(),
{
    if ts.len() > 0 {
        lemma_apply_txs_data_unique(v, ts.drop_last());
        let prev = eff_apply_txs(v, ts.drop_last());
        let t = ts.last();
        let i = (ts.len() - 1) as usize;
        frame_insert_transaction(prev, t, i);
        let v1 = eff_insert_transaction(prev, t, i);
        let v2 = if i != 0 {
            StoreView { cells: eff_consume_cells(v1.cells, t.hash, t.inputs), ..v1 }
        } else {
            v1
        };
        lemma_insert_cells_data_unique(v2, t.hash, t.outputs, t.outputs_data);
    }
}

/// Idempotent dedup, insertion side: after inserting a block, each output
/// blob of each transaction has a stored data row under its content hash,
/// and data keys are pairwise distinct. Two outputs with byte-identical
/// data therefore share exactly one data row.
pub proof fn lemma_insert_block_dedups_data(v: StoreView, b: BlockRec, j: int, k: int)
    requires
        forall|i1: int, i2: int|
            0 <= i1 < i2 < v.cells_data.len() ==> (#[trigger] v.cells_data[i1]).hash != (
            #[trigger] v.cells_data[i2]).hash,
        0 <= j < b.transactions.len(),
        0 <= k < b.transactions[j].outputs_data.len(),
        b.transactions[j].outputs.len() == b.transactions[j].outputs_data.len(),
    ensures
        has_data(
            eff_insert_block(v, b).cells_data,
            crate::hashing::data_hash_of(b.transactions[j].outputs_data[k]),
        ),
        forall|i1: int, i2: int|
            0 <= i1 < i2 < eff_insert_block(v, b).cells_data.len() ==> (
            #[trigger] eff_insert_block(v, b).cells_data[i1]).hash != (
            #[trigger] eff_insert_block(v, b).cells_data[i2]).hash,
{
    let v1 = eff_insert_block_header(v, b.header);
    frame_insert_block_uncles(v1, b.header.hash, b.uncles);
    let v2 = eff_insert_block_uncles(v1, b.header.hash, b.uncles);
    frame_insert_uncles(v2, b.uncles);
    let v3 = eff_insert_uncles(v2, b.uncles);
    frame_insert_proposals(v3, b.header.hash, b.proposals);
    let v4 = eff_insert_proposals(v3, b.header.hash, b.proposals);
    frame_insert_block_txs(v4, b.header.hash, b.transactions);
    let v5 = eff_insert_block_txs(v4, b.header.hash, b.transactions);
    assert(v5.cells_data == v.cells_data);
    lemma_apply_txs_adds_data(v5, b.transactions, j, k);
    lemma_apply_txs_data_unique(v5, b.transactions);
}

/// A data row still referenced by a surviving cell is never collected while
/// orphaned rows of the removed cells are examined.
proof fn lemma_gc_cells_keeps_data(v: StoreView, rows: Seq<CellRow>, hh: Hash32)
    requires
        data_referenced(v.cells, hh),
        has_data(v.cells_data, hh),
    ensures
        has_data(eff_gc_cells(v, rows).cells_data, hh),
    decreases rows.len(),
{
    if rows.len() > 0 {
        lemma_gc_cells_keeps_data(v, rows.drop_last(), hh);
        let prev = eff_gc_cells(v, rows.drop_last());
        frame_gc_cells(v, rows.drop_last());
        assert(prev.cells == v.cells);
        let r = rows.last();
        // the data step of the last collected cell
        let d1 = eff_gc_data(prev, r.data_hash);
        assert(has_data(d1.cells_data, hh)) by {
            if !data_referenced(prev.cells, r.data_hash) {
                assert(r.data_hash != hh);
                let i = choose|i: int|
                    0 <= i < prev.cells_data.len() && (#[trigger] prev.cells_data[i]).hash == hh;
                prev.cells_data.lemma_filter_contains(
                    |x: crate::rows::DataRec| x.hash != r.data_hash,
                    i,
                );
                let f = d1.cells_data;
                let kk = choose|kk: int| 0 <= kk < f.len() && f[kk] == prev.cells_data[i];
                assert(f[kk].hash == hh);
            }
        }
    }
}

/// Idempotent dedup, removal side: removing a block must not delete a data
/// row while a cell of another block still references it.
pub proof fn lemma_remove_block_keeps_shared_data(v: StoreView, height: u64, c: CellRow)
    requires
        block_hash_at(v, height) is Some,
        v.cells.contains(c),
        !captured_txs(v, block_hash_at(v, height)->Some_0).contains(c.tx_hash),
        has_data(v.cells_data, c.data_hash),
    ensures
        has_data(eff_remove_block(v, height).cells_data, c.data_hash),
{
    let h = block_hash_at(v, height)->Some_0;
    let ts = captured_txs(v, h);
    let v1 = eff_del_block_txs(v, h);
    assert(v1.cells == v.cells);
    lemma_remove_txs_keeps_data(v1, ts, c);
    let v2 = eff_remove_txs(v1, ts);
    let v3 = crate::effects::eff_remove_own_proposals(v2, h);
    let us = captured_uncles(v3, h);
    let v4 = eff_del_block_uncles(v3, h);
    frame_remove_uncles(v4, us);
}

/// Through the removal of a list of transactions, a data row referenced by a
/// cell owned by none of them survives.
proof fn lemma_remove_txs_keeps_data(v: StoreView, ts: Seq<Hash32>, c: CellRow)
    requires
        v.cells.contains(c),
        !ts.contains(c.tx_hash),
        has_data(v.cells_data, c.data_hash),
    ensures
        has_data(eff_remove_txs(v, ts).cells_data, c.data_hash),
        exists|cc: CellRow|
            #[trigger] eff_remove_txs(v, ts).cells.contains(cc) && cc.tx_hash == c.tx_hash
                && cc.data_hash == c.data_hash,
    decreases ts.len(),
{
    if ts.len() == 0 {
        assert(eff_remove_txs(v, ts).cells.contains(c) && c.tx_hash == c.tx_hash && c.data_hash
            == c.data_hash);
    } else {
        let prefix = ts.drop_last();
        let last = ts.last();
        assert(!prefix.contains(c.tx_hash)) by {
            if prefix.contains(c.tx_hash) {
                let i = choose|i: int| 0 <= i < prefix.len() && prefix[i] == c.tx_hash;
                assert(ts[i] == c.tx_hash);
            }
        }
        lemma_remove_txs_keeps_data(v, prefix, c);
        let mid = eff_remove_txs(v, prefix);
        let cc = choose|cc: CellRow|
            #[trigger] mid.cells.contains(cc) && cc.tx_hash == c.tx_hash && cc.data_hash
                == c.data_hash;
        assert(c.tx_hash != last) by {
            assert(ts[ts.len() - 1] == last);
        }
        // the surviving referencing cell passes through restore and filter
        let m1 = eff_remove_transaction(mid, last);
        assert(m1.cells == mid.cells && m1.cells_data == mid.cells_data);
        let i = choose|i: int| 0 <= i < m1.cells.len() && m1.cells[i] == cc;
        let rcells = eff_restore_cells(m1.cells, last);
        let rcc = rcells[i];
        assert(rcc.tx_hash == cc.tx_hash && rcc.data_hash == cc.data_hash);
        let m2 = StoreView { cells: rcells, ..m1 };
        let pred = |r: CellRow| r.tx_hash != last;
        m2.cells.lemma_filter_contains(pred, i);
        let fcells = m2.cells.filter(pred);
        let m3 = StoreView { cells: fcells, ..m2 };
        assert(data_referenced(m3.cells, c.data_hash)) by {
            let kk = choose|kk: int| 0 <= kk < fcells.len() && fcells[kk] == rcc;
            assert(fcells[kk].data_hash == c.data_hash);
        }
        let rows = m2.cells.filter(|r: CellRow| r.tx_hash == last);
        lemma_gc_cells_keeps_data(m3, rows, c.data_hash);
        frame_gc_cells(m3, rows);
        let fin = eff_gc_cells(m3, rows);
        assert(fin.cells.contains(rcc)) by {
            let kk = choose|kk: int| 0 <= kk < fcells.len() && fcells[kk] == rcc;
            assert(fin.cells[kk] == rcc);
        }
        assert(fin == eff_remove_txs(v, ts));
        assert(fin.cells.contains(rcc) && rcc.tx_hash == c.tx_hash && rcc.data_hash
            == c.data_hash);
    }
}


/// Absence of a data key survives the orphan collection: collection only
/// deletes rows.
proof fn lemma_gc_keeps_absent(v: StoreView, rows: Seq<CellRow>, hh: Hash32)
    requires
        !has_data(v.cells_data, hh),
    ensures
        !has_data(eff_gc_cells(v, rows).cells_data, hh),
    decreases rows.len(),
{
    if rows.len() > 0 {
        lemma_gc_keeps_absent(v, rows.drop_last(), hh);
        lemma_gc_cells_deletes_step(v, rows, hh);
    }
}

/// One collection step cannot introduce a data key, and collecting a key
/// that no cell references removes it.
proof fn lemma_gc_cells_deletes_step(v: StoreView, rows: Seq<CellRow>, hh: Hash32)
    requires
        rows.len() > 0,
        !has_data(eff_gc_cells(v, rows.drop_last()).cells_data, hh) || (!data_referenced(
            v.cells,
            hh,
        ) && rows.last().data_hash == hh),
    ensures
        !has_data(eff_gc_cells(v, rows).cells_data, hh),
{
    let prev = eff_gc_cells(v, rows.drop_last());
    frame_gc_cells(v, rows.drop_last());
    let r = rows.last();
    let d1 = eff_gc_data(prev, r.data_hash);
    assert(!has_data(d1.cells_data, hh)) by {
        if !has_data(prev.cells_data, hh) {
            // filtering cannot add the key back
            if has_data(d1.cells_data, hh) {
                let i = choose|i: int|
                    0 <= i < d1.cells_data.len() && (#[trigger] d1.cells_data[i]).hash == hh;
                if !data_referenced(prev.cells, r.data_hash) {
                    prev.cells_data.lemma_filter_contains_rev(
                        |x: crate::rows::DataRec| x.hash != r.data_hash,
                        d1.cells_data[i],
                    );
                    let j = choose|j: int|
                        0 <= j < prev.cells_data.len() && (#[trigger] prev.cells_data[j])
                            == d1.cells_data[i];
                }
            }
        } else {
            // then the step's own key is the orphaned one
            assert(r.data_hash == hh && !data_referenced(v.cells, hh));
            assert(!data_referenced(prev.cells, hh));
            assert forall|i: int| 0 <= i < d1.cells_data.len() implies (
            #[trigger] d1.cells_data[i]).hash != hh by {
                prev.cells_data.lemma_filter_pred(
                    |x: crate::rows::DataRec| x.hash != r.data_hash,
                    i,
                );
            }
        }
    }
    // the script steps do not touch the data table
    assert(eff_gc_cells(v, rows).cells_data == d1.cells_data);
}

/// If one of the collected cells carried the key and no remaining cell
/// references it, the key is gone afterwards.
proof fn lemma_gc_cells_deletes(v: StoreView, rows: Seq<CellRow>, hh: Hash32)
    requires
        !data_referenced(v.cells, hh),
        exists|k: int| 0 <= k < rows.len() && (#[trigger] rows[k]).data_hash == hh,
    ensures
        !has_data(eff_gc_cells(v, rows).cells_data, hh),
    decreases rows.len(),
{
    let k = choose|k: int| 0 <= k < rows.len() && (#[trigger] rows[k]).data_hash == hh;
    if k < rows.len() - 1 {
        assert(rows.drop_last()[k].data_hash == hh);
        lemma_gc_cells_deletes(v, rows.drop_last(), hh);
        lemma_gc_cells_deletes_step(v, rows, hh);
    } else {
        lemma_gc_cells_deletes_step(v, rows, hh);
    }
}

/// Absence of a data key survives the whole per-transaction removal.
proof fn lemma_remove_tx_full_keeps_absent(v: StoreView, t: Hash32, hh: Hash32)
    requires
        !has_data(v.cells_data, hh),
    ensures
        !has_data(eff_remove_tx_full(v, t).cells_data, hh),
{
    let v1 = eff_remove_transaction(v, t);
    let v2 = StoreView { cells: eff_restore_cells(v1.cells, t), ..v1 };
    let v3 = StoreView { cells: v2.cells.filter(|r: CellRow| r.tx_hash != t), ..v2 };
    lemma_gc_keeps_absent(v3, v2.cells.filter(|r: CellRow| r.tx_hash == t), hh);
}

/// Every cell that survives the removal of a list of transactions descends
/// from a stored cell with the same owner and the same content references,
/// owned by none of the removed transactions.
proof fn lemma_remove_txs_cell_origin(v: StoreView, ts: Seq<Hash32>, cc: CellRow)
    requires
        eff_remove_txs(v, ts).cells.contains(cc),
    ensures
        !ts.contains(cc.tx_hash),
        exists|j: int|
            0 <= j < v.cells.len() && (#[trigger] v.cells[j]).tx_hash == cc.tx_hash
                && v.cells[j].data_hash == cc.data_hash,
    decreases ts.len(),
{
    if ts.len() == 0 {
        let i = choose|i: int| 0 <= i < v.cells.len() && v.cells[i] == cc;
        assert(v.cells[i].tx_hash == cc.tx_hash && v.cells[i].data_hash == cc.data_hash);
        if ts.contains(cc.tx_hash) {
            let k = choose|k: int| 0 <= k < ts.len() && ts[k] == cc.tx_hash;
        }
    } else {
        let prefix = ts.drop_last();
        let last = ts.last();
        let mid = eff_remove_txs(v, prefix);
        let m1 = eff_remove_transaction(mid, last);
        let m2 = StoreView { cells: eff_restore_cells(m1.cells, last), ..m1 };
        let pred = |r: CellRow| r.tx_hash != last;
        let fcells = m2.cells.filter(pred);
        frame_gc_cells(
            StoreView { cells: fcells, ..m2 },
            m2.cells.filter(|r: CellRow| r.tx_hash == last),
        );
        assert(eff_remove_txs(v, ts).cells == fcells);
        let i = choose|i: int| 0 <= i < fcells.len() && fcells[i] == cc;
        m2.cells.lemma_filter_pred(pred, i);
        assert(cc.tx_hash != last);
        m2.cells.lemma_filter_contains_rev(pred, cc);
        let j = choose|j: int| 0 <= j < m2.cells.len() && m2.cells[j] == cc;
        // undo the restore step: the origin row differs at most in its marker
        let cm = m1.cells[j];
        assert(cm.tx_hash == cc.tx_hash && cm.data_hash == cc.data_hash);
        assert(mid.cells.contains(cm)) by {
            assert(mid.cells[j] == cm);
        }
        lemma_remove_txs_cell_origin(v, prefix, cm);
        assert(!ts.contains(cc.tx_hash)) by {
            if ts.contains(cc.tx_hash) {
                let k = choose|k: int| 0 <= k < ts.len() && ts[k] == cc.tx_hash;
                if k < ts.len() - 1 {
                    assert(prefix[k] == cc.tx_hash);
                }
            }
        }
    }
}

/// Idempotent dedup, final direction: when the last cells referencing a data
/// key are all owned by the removed transactions, the key's row is gone
/// afterwards.
proof fn lemma_remove_txs_deletes_data(v: StoreView, ts: Seq<Hash32>, hh: Hash32)
    requires
        forall|i: int|
            0 <= i < v.cells.len() && (#[trigger] v.cells[i]).data_hash == hh ==> ts.contains(
                v.cells[i].tx_hash,
            ),
        data_referenced(v.cells, hh),
    ensures
        !has_data(eff_remove_txs(v, ts).cells_data, hh),
    decreases ts.len(),
{
    let wi = choose|i: int| 0 <= i < v.cells.len() && (#[trigger] v.cells[i]).data_hash == hh;
    if ts.len() == 0 {
        assert(ts.contains(v.cells[wi].tx_hash));
        let k = choose|k: int| 0 <= k < ts.len() && ts[k] == v.cells[wi].tx_hash;
    } else {
        let prefix = ts.drop_last();
        let last = ts.last();
        let mid = eff_remove_txs(v, prefix);
        if exists|i: int|
            0 <= i < v.cells.len() && (#[trigger] v.cells[i]).data_hash == hh && !prefix.contains(
                v.cells[i].tx_hash,
            ) {
            // some referencing cell is owned by the last transaction
            let li = choose|i: int|
                0 <= i < v.cells.len() && (#[trigger] v.cells[i]).data_hash == hh
                    && !prefix.contains(v.cells[i].tx_hash);
            let c = v.cells[li];
            assert(ts.contains(c.tx_hash));
            assert(c.tx_hash == last) by {
                let k = choose|k: int| 0 <= k < ts.len() && ts[k] == c.tx_hash;
                if k < ts.len() - 1 {
                    assert(prefix[k] == c.tx_hash);
                }
            }
            // it survives the removal of the earlier transactions
            assert(v.cells.contains(c)) by {
                assert(v.cells[li] == c);
            }
            lemma_remove_txs_restores(v, prefix, c);
            let cr = if c.consumed matches Option::Some(x) && prefix.contains(x.tx_hash) {
                CellRow { consumed: Option::None, ..c }
            } else {
                c
            };
            assert(mid.cells.contains(cr));
            // the last step deletes every remaining referencing cell
            let m1 = eff_remove_transaction(mid, last);
            let m2 = StoreView { cells: eff_restore_cells(m1.cells, last), ..m1 };
            let pred = |r: CellRow| r.tx_hash != last;
            let fcells = m2.cells.filter(pred);
            let m3 = StoreView { cells: fcells, ..m2 };
            let rows = m2.cells.filter(|r: CellRow| r.tx_hash == last);
            assert(!data_referenced(m3.cells, hh)) by {
                if data_referenced(fcells, hh) {
                    let fi = choose|fi: int|
                        0 <= fi < fcells.len() && (#[trigger] fcells[fi]).data_hash == hh;
                    m2.cells.lemma_filter_pred(pred, fi);
                    m2.cells.lemma_filter_contains_rev(pred, fcells[fi]);
                    let mj = choose|mj: int|
                        0 <= mj < m2.cells.len() && m2.cells[mj] == fcells[fi];
                    let cm = m1.cells[mj];
                    assert(cm.tx_hash == fcells[fi].tx_hash && cm.data_hash == hh);
                    assert(mid.cells.contains(cm)) by {
                        assert(mid.cells[mj] == cm);
                    }
                    lemma_remove_txs_cell_origin(v, prefix, cm);
                    let oj = choose|oj: int|
                        0 <= oj < v.cells.len() && (#[trigger] v.cells[oj]).tx_hash == cm.tx_hash
                            && v.cells[oj].data_hash == cm.data_hash;
                    assert(ts.contains(cm.tx_hash));
                    let k = choose|k: int| 0 <= k < ts.len() && ts[k] == cm.tx_hash;
                    if k < ts.len() - 1 {
                        assert(prefix[k] == cm.tx_hash);
                        assert(false);
                    }
                    assert(cm.tx_hash == last);
                    assert(false);
                }
            }
            // and the deleted referencing cell is among the collected rows
            assert(exists|k: int| 0 <= k < rows.len() && (#[trigger] rows[k]).data_hash == hh) by {
                let mi = choose|mi: int| 0 <= mi < mid.cells.len() && mid.cells[mi] == cr;
                assert(m2.cells[mi].tx_hash == cr.tx_hash && m2.cells[mi].data_hash
                    == cr.data_hash);
                m2.cells.lemma_filter_contains(|r: CellRow| r.tx_hash == last, mi);
                let kk = choose|kk: int|
                    0 <= kk < rows.len() && (#[trigger] rows[kk]) == m2.cells[mi];
                assert(rows[kk].data_hash == hh);
            }
            lemma_gc_cells_deletes(m3, rows, hh);
        } else {
            // every referencing cell falls with the earlier transactions
            assert(forall|i: int|
                0 <= i < v.cells.len() && (#[trigger] v.cells[i]).data_hash == hh
                    ==> prefix.contains(v.cells[i].tx_hash));
            lemma_remove_txs_deletes_data(v, prefix, hh);
            lemma_remove_tx_full_keeps_absent(mid, last, hh);
        }
    }
}

/// Idempotent dedup, removal side: removing a block deletes a data row once
/// the only cells referencing it belonged to the removed block's
/// transactions.
pub proof fn lemma_remove_block_collects_orphaned_data(v: StoreView, height: u64, hh: Hash32)
    requires
        block_hash_at(v, height) is Some,
        forall|i: int|
            0 <= i < v.cells.len() && (#[trigger] v.cells[i]).data_hash == hh ==> captured_txs(
                v,
                block_hash_at(v, height)->Some_0,
            ).contains(v.cells[i].tx_hash),
        data_referenced(v.cells, hh),
    ensures
        !has_data(eff_remove_block(v, height).cells_data, hh),
{
    let h = block_hash_at(v, height)->Some_0;
    let ts = captured_txs(v, h);
    let v1 = eff_del_block_txs(v, h);
    assert(v1.cells == v.cells && v1.cells_data == v.cells_data);
    lemma_remove_txs_deletes_data(v1, ts, hh);
    let v2 = eff_remove_txs(v1, ts);
    let v3 = crate::effects::eff_remove_own_proposals(v2, h);
    let us = captured_uncles(v3, h);
    let v4 = eff_del_block_uncles(v3, h);
    frame_remove_uncles(v4, us);
}

} // verus!
