//! The round-trip law: inserting a block and immediately removing it returns
//! the chain-structure tables to their prior state, row for row.
//!
//! The law is proved here for the header, uncle, proposal, link, transaction,
//! dependency and witness tables. The cell-level half of the story is stated
//! separately in `laws`: rolling back restores consumption state pointwise,
//! and a content-addressed row shared with a surviving cell is kept.

use vstd::prelude::*;

use crate::effects::{
    block_hash_at, captured_txs, captured_uncles, eff_apply_txs, eff_consume_cells,
    eff_del_block_header, eff_del_block_txs, eff_del_block_uncles, eff_insert_block,
    eff_insert_block_header, eff_insert_block_txs, eff_insert_block_uncles,
    eff_insert_cell_deps, eff_insert_header_deps, eff_insert_proposals, eff_insert_tx_row,
    eff_insert_uncle_header, eff_insert_uncles, eff_insert_witnesses, eff_remove_block,
    eff_remove_own_proposals, eff_remove_transaction, eff_remove_txs, eff_remove_uncle_header,
    eff_remove_uncles, eff_restore_cells,
};
use crate::laws::{
    frame_apply_txs, frame_gc_cells, frame_insert_block_txs, frame_insert_block_uncles,
    frame_insert_cell_deps, frame_insert_cells, frame_insert_header_deps,
    frame_insert_proposals, frame_insert_uncles, frame_insert_witnesses, frame_remove_txs,
    frame_remove_uncles,
};
use crate::rows::{
    first_with_number, has_block_tx, has_cell_dep, has_header, has_header_dep, has_number,
    has_proposal, has_tx, has_uncle_link, has_witness, ref_inv, uncle_linked, BlockTxRow,
    BlockUncleRow, CellDepRow, CellRow, HeaderDepRow, ProposalRow, StoreView, TxRow, WitnessRec,
};
use crate::storage::lemma_first_with_number_skip;
use crate::types::{BlockRec, CellDep, Hash32, Header, ShortId, TxRec, UncleRec};

verus! {

// ------------------------------------------------------------------
// small facts about filtering
// ------------------------------------------------------------------
proof fn lemma_filter_push<A>(s: Seq<A>, x: A, p: spec_fn(A) -> bool)
    ensures
        s.push(x).filter(p) == if p(x) {
            s.filter(p).push(x)
        } else {
            s.filter(p)
        },
{
    reveal(Seq::filter);
    assert(s.push(x).drop_last() =~= s);
    assert(s.push(x).last() == x);
}

proof fn lemma_filter_all_pass<A>(s: Seq<A>, p: spec_fn(A) -> bool)
    requires
        forall|i: int| 0 <= i < s.len() ==> p(#[trigger] s[i]),
    ensures
        s.filter(p) == s,
    decreases s.len(),
{
    reveal(Seq::filter);
    if s.len() > 0 {
        assert(forall|i: int| 0 <= i < s.drop_last().len() ==> p(#[trigger] s.drop_last()[i]));
        lemma_filter_all_pass(s.drop_last(), p);
        assert(s.filter(p) =~= s);
    } else {
        assert(s.filter(p) =~= s);
    }
}

proof fn lemma_filter_none_pass<A>(s: Seq<A>, p: spec_fn(A) -> bool)
    requires
        forall|i: int| 0 <= i < s.len() ==> !p(#[trigger] s[i]),
    ensures
        s.filter(p) == Seq::<A>::empty(),
    decreases s.len(),
{
    reveal(Seq::filter);
    if s.len() > 0 {
        assert(forall|i: int| 0 <= i < s.drop_last().len() ==> !p(#[trigger] s.drop_last()[i]));
        lemma_filter_none_pass(s.drop_last(), p);
    }
}


proof fn lemma_filter_filter<A>(
    s: Seq<A>,
    p: spec_fn(A) -> bool,
    q: spec_fn(A) -> bool,
    r: spec_fn(A) -> bool,
)
    requires
        forall|x: A| #[trigger] r(x) == (p(x) && q(x)),
    ensures
        s.filter(p).filter(q) == s.filter(r),
    decreases s.len(),
{
    reveal(Seq::filter);
    if s.len() > 0 {
        let sub = s.drop_last();
        lemma_filter_filter(sub, p, q, r);
        if p(s.last()) {
            lemma_filter_push(sub.filter(p), s.last(), q);
        }
        assert(r(s.last()) == (p(s.last()) && q(s.last())));
    }
}


// ------------------------------------------------------------------
// the rows a block contributes to each table
// ------------------------------------------------------------------
pub open spec fn link_rows(b: Hash32, us: Seq<UncleRec>) -> Seq<BlockUncleRow> {
    Seq::new(
        us.len(),
        |i: int|
            BlockUncleRow { block_hash: b, uncle_hash: us[i].header.hash, index: i as usize },
    )
}

pub open spec fn sid_rows(c: Hash32, sids: Seq<ShortId>) -> Seq<ProposalRow> {
    Seq::new(
        sids.len(),
        |i: int| ProposalRow { block_hash: c, short_id: sids[i], index: i as usize },
    )
}

pub open spec fn uncle_header_rows(us: Seq<UncleRec>) -> Seq<Header> {
    Seq::new(us.len(), |i: int| us[i].header)
}

/// The proposal rows of all uncles, one group per uncle, in order.
pub open spec fn uncle_prop_rows(us: Seq<UncleRec>) -> Seq<ProposalRow>
    decreases us.len(),
{
    if us.len() == 0 {
        Seq::empty()
    } else {
        uncle_prop_rows(us.drop_last()) + sid_rows(us.last().header.hash, us.last().proposals)
    }
}

pub open spec fn bt_rows(b: Hash32, ts: Seq<TxRec>) -> Seq<BlockTxRow> {
    Seq::new(
        ts.len(),
        |i: int| BlockTxRow { block_hash: b, tx_hash: ts[i].hash, index: i as usize },
    )
}

pub open spec fn tx_rows(ts: Seq<TxRec>) -> Seq<TxRow> {
    Seq::new(ts.len(), |i: int| TxRow { hash: ts[i].hash, version: ts[i].version })
}

pub open spec fn cd_rows(rt: Hash32, ri: usize, ds: Seq<CellDep>) -> Seq<CellDepRow> {
    Seq::new(
        ds.len(),
        |i: int|
            CellDepRow {
                ref_tx_hash: rt,
                ref_index: ri,
                ref_dep_index: i as usize,
                tx_hash: ds[i].out_point.tx_hash,
                index: ds[i].out_point.index,
                dep_type: ds[i].dep_type,
            },
    )
}

pub open spec fn hd_rows(rt: Hash32, ri: usize, hs: Seq<Hash32>) -> Seq<HeaderDepRow> {
    Seq::new(
        hs.len(),
        |i: int|
            HeaderDepRow { ref_tx_hash: rt, ref_index: ri, ref_dep_index: i as usize, block_hash: hs[i] },
    )
}

pub open spec fn wit_rows(rt: Hash32, ri: usize, ws: Seq<Seq<u8>>) -> Seq<WitnessRec> {
    Seq::new(
        ws.len(),
        |i: int|
            WitnessRec { ref_tx_hash: rt, ref_index: ri, ref_dep_index: i as usize, witness: ws[i] },
    )
}

pub open spec fn all_cd_rows(ts: Seq<TxRec>) -> Seq<CellDepRow>
    decreases ts.len(),
{
    if ts.len() == 0 {
        Seq::empty()
    } else {
        all_cd_rows(ts.drop_last()) + cd_rows(
            ts.last().hash,
            (ts.len() - 1) as usize,
            ts.last().cell_deps,
        )
    }
}

pub open spec fn all_hd_rows(ts: Seq<TxRec>) -> Seq<HeaderDepRow>
    decreases ts.len(),
{
    if ts.len() == 0 {
        Seq::empty()
    } else {
        all_hd_rows(ts.drop_last()) + hd_rows(
            ts.last().hash,
            (ts.len() - 1) as usize,
            ts.last().header_deps,
        )
    }
}

pub open spec fn all_wit_rows(ts: Seq<TxRec>) -> Seq<WitnessRec>
    decreases ts.len(),
{
    if ts.len() == 0 {
        Seq::empty()
    } else {
        all_wit_rows(ts.drop_last()) + wit_rows(
            ts.last().hash,
            (ts.len() - 1) as usize,
            ts.last().witnesses,
        )
    }
}

/// Every proposal row contributed by the uncles carries some uncle's hash as
/// its container.
proof fn lemma_upr_owner(us: Seq<UncleRec>, k: int)
    requires
        0 <= k < uncle_prop_rows(us).len(),
    ensures
        exists|j: int|
            0 <= j < us.len() && (#[trigger] us[j]).header.hash == uncle_prop_rows(us)[k].block_hash,
    decreases us.len(),
{
    if us.len() > 0 {
        let pre = uncle_prop_rows(us.drop_last());
        if k < pre.len() {
            lemma_upr_owner(us.drop_last(), k);
            let j = choose|j: int|
                0 <= j < us.drop_last().len() && (#[trigger] us.drop_last()[j]).header.hash
                    == pre[k].block_hash;
            assert(us[j].header.hash == uncle_prop_rows(us)[k].block_hash);
        } else {
            assert(us[us.len() - 1].header.hash == uncle_prop_rows(us)[k].block_hash);
        }
    }
}

/// Every dependency row contributed by the transactions is owned by some
/// transaction of the list.
proof fn lemma_acd_owner(ts: Seq<TxRec>, k: int)
    requires
        0 <= k < all_cd_rows(ts).len(),
    ensures
        exists|j: int|
            0 <= j < ts.len() && (#[trigger] ts[j]).hash == all_cd_rows(ts)[k].ref_tx_hash,
    decreases ts.len(),
{
    if ts.len() > 0 {
        let pre = all_cd_rows(ts.drop_last());
        if k < pre.len() {
            lemma_acd_owner(ts.drop_last(), k);
            let j = choose|j: int|
                0 <= j < ts.drop_last().len() && (#[trigger] ts.drop_last()[j]).hash
                    == pre[k].ref_tx_hash;
            assert(ts[j].hash == all_cd_rows(ts)[k].ref_tx_hash);
        } else {
            assert(ts[ts.len() - 1].hash == all_cd_rows(ts)[k].ref_tx_hash);
        }
    }
}

proof fn lemma_ahd_owner(ts: Seq<TxRec>, k: int)
    requires
        0 <= k < all_hd_rows(ts).len(),
    ensures
        exists|j: int|
            0 <= j < ts.len() && (#[trigger] ts[j]).hash == all_hd_rows(ts)[k].ref_tx_hash,
    decreases ts.len(),
{
    if ts.len() > 0 {
        let pre = all_hd_rows(ts.drop_last());
        if k < pre.len() {
            lemma_ahd_owner(ts.drop_last(), k);
            let j = choose|j: int|
                0 <= j < ts.drop_last().len() && (#[trigger] ts.drop_last()[j]).hash
                    == pre[k].ref_tx_hash;
            assert(ts[j].hash == all_hd_rows(ts)[k].ref_tx_hash);
        } else {
            assert(ts[ts.len() - 1].hash == all_hd_rows(ts)[k].ref_tx_hash);
        }
    }
}

proof fn lemma_awit_owner(ts: Seq<TxRec>, k: int)
    requires
        0 <= k < all_wit_rows(ts).len(),
    ensures
        exists|j: int|
            0 <= j < ts.len() && (#[trigger] ts[j]).hash == all_wit_rows(ts)[k].ref_tx_hash,
    decreases ts.len(),
{
    if ts.len() > 0 {
        let pre = all_wit_rows(ts.drop_last());
        if k < pre.len() {
            lemma_awit_owner(ts.drop_last(), k);
            let j = choose|j: int|
                0 <= j < ts.drop_last().len() && (#[trigger] ts.drop_last()[j]).hash
                    == pre[k].ref_tx_hash;
            assert(ts[j].hash == all_wit_rows(ts)[k].ref_tx_hash);
        } else {
            assert(ts[ts.len() - 1].hash == all_wit_rows(ts)[k].ref_tx_hash);
        }
    }
}

// ------------------------------------------------------------------
// what insertion appends to each table
// ------------------------------------------------------------------
proof fn ins_links(v: StoreView, bh: Hash32, us: Seq<UncleRec>)
    requires
        forall|i: int| 0 <= i < v.block_uncles.len() ==> (#[trigger] v.block_uncles[i]).block_hash != bh,
        forall|i: int, j: int|
            0 <= i < j < us.len() ==> (#[trigger] us[i]).header.hash != (
            #[trigger] us[j]).header.hash,
    ensures
        eff_insert_block_uncles(v, bh, us).block_uncles == v.block_uncles + link_rows(bh, us),
    decreases us.len(),
{
    if us.len() == 0 {
        assert(v.block_uncles + link_rows(bh, us) =~= v.block_uncles);
    } else {
        ins_links(v, bh, us.drop_last());
        let prev = eff_insert_block_uncles(v, bh, us.drop_last());
        let lr = link_rows(bh, us.drop_last());
        let uh = us.last().header.hash;
        assert(!has_uncle_link(prev.block_uncles, bh, uh)) by {
            assert forall|i: int| 0 <= i < prev.block_uncles.len() implies !((
            #[trigger] prev.block_uncles[i]).block_hash == bh && prev.block_uncles[i].uncle_hash
                == uh) by {
                if i < v.block_uncles.len() {
                    assert(prev.block_uncles[i] == v.block_uncles[i]);
                } else {
                    assert(prev.block_uncles[i] == lr[i - v.block_uncles.len()]);
                    assert(us[i - v.block_uncles.len()].header.hash != uh);
                }
            }
        }
        assert(eff_insert_block_uncles(v, bh, us).block_uncles =~= v.block_uncles + link_rows(
            bh,
            us,
        ));
    }
}

proof fn ins_sids(v: StoreView, c: Hash32, sids: Seq<ShortId>)
    requires
        forall|i: int|
            0 <= i < v.block_proposals.len() ==> (#[trigger] v.block_proposals[i]).block_hash != c,
        forall|i: int, j: int| 0 <= i < j < sids.len() ==> sids[i] != sids[j],
    ensures
        eff_insert_proposals(v, c, sids).block_proposals == v.block_proposals + sid_rows(c, sids),
    decreases sids.len(),
{
    if sids.len() == 0 {
        assert(v.block_proposals + sid_rows(c, sids) =~= v.block_proposals);
    } else {
        assert(forall|i: int, j: int|
            0 <= i < j < sids.drop_last().len() ==> sids.drop_last()[i] != sids.drop_last()[j]);
        ins_sids(v, c, sids.drop_last());
        let prev = eff_insert_proposals(v, c, sids.drop_last());
        let sr = sid_rows(c, sids.drop_last());
        let sid = sids.last();
        assert(!has_proposal(prev.block_proposals, c, sid)) by {
            assert forall|i: int| 0 <= i < prev.block_proposals.len() implies !((
            #[trigger] prev.block_proposals[i]).block_hash == c
                && prev.block_proposals[i].short_id == sid) by {
                if i < v.block_proposals.len() {
                    assert(prev.block_proposals[i] == v.block_proposals[i]);
                } else {
                    assert(prev.block_proposals[i] == sr[i - v.block_proposals.len()]);
                    assert(sids[i - v.block_proposals.len()] != sid);
                }
            }
        }
        assert(eff_insert_proposals(v, c, sids).block_proposals =~= v.block_proposals + sid_rows(
            c,
            sids,
        ));
    }
}

proof fn ins_uncles(v: StoreView, us: Seq<UncleRec>)
    requires
        forall|i: int|
            0 <= i < us.len() ==> !has_header(v.uncle_headers, (#[trigger] us[i]).header.hash),
        forall|i: int, j: int|
            0 <= i < us.len() && 0 <= j < v.block_proposals.len() ==> (
            #[trigger] v.block_proposals[j]).block_hash != (#[trigger] us[i]).header.hash,
        forall|i: int, j: int|
            0 <= i < j < us.len() ==> (#[trigger] us[i]).header.hash != (
            #[trigger] us[j]).header.hash,
        forall|i: int, p: int, q: int|
            #![trigger us[i].proposals[p], us[i].proposals[q]]
            0 <= i < us.len() && 0 <= p < q < us[i].proposals.len() ==> us[i].proposals[p]
                != us[i].proposals[q],
    ensures
        eff_insert_uncles(v, us).uncle_headers == v.uncle_headers + uncle_header_rows(us),
        eff_insert_uncles(v, us).block_proposals == v.block_proposals + uncle_prop_rows(us),
    decreases us.len(),
{
    if us.len() == 0 {
        assert(v.uncle_headers + uncle_header_rows(us) =~= v.uncle_headers);
        assert(v.block_proposals + uncle_prop_rows(us) =~= v.block_proposals);
    } else {
        let sub = us.drop_last();
        ins_uncles(v, sub);
        let prev = eff_insert_uncles(v, sub);
        frame_insert_uncles(v, sub);
        let u = us.last();
        // the uncle's header is new to the table
        assert(!has_header(prev.uncle_headers, u.header.hash)) by {
            assert forall|i: int| 0 <= i < prev.uncle_headers.len() implies (
            #[trigger] prev.uncle_headers[i]).hash != u.header.hash by {
                if i < v.uncle_headers.len() {
                    assert(prev.uncle_headers[i] == v.uncle_headers[i]);
                    assert(!has_header(v.uncle_headers, us[us.len() - 1].header.hash));
                    if prev.uncle_headers[i].hash == u.header.hash {
                        assert(has_header(v.uncle_headers, u.header.hash));
                    }
                } else {
                    assert(prev.uncle_headers[i] == uncle_header_rows(sub)[i
                        - v.uncle_headers.len()]);
                    assert(us[i - v.uncle_headers.len()].header.hash != u.header.hash);
                }
            }
        }
        let mid = eff_insert_uncle_header(prev, u.header);
        assert(mid.uncle_headers == prev.uncle_headers.push(u.header));
        assert(mid.block_proposals == prev.block_proposals);
        // no stored proposal carries the uncle as its container yet
        assert(forall|j: int|
            0 <= j < mid.block_proposals.len() ==> (#[trigger] mid.block_proposals[j]).block_hash
                != u.header.hash) by {
            assert forall|j: int| 0 <= j < mid.block_proposals.len() implies (
            #[trigger] mid.block_proposals[j]).block_hash != u.header.hash by {
                if j < v.block_proposals.len() {
                    assert(mid.block_proposals[j] == v.block_proposals[j]);
                    assert(v.block_proposals[j].block_hash != us[us.len() - 1].header.hash);
                } else {
                    let k = j - v.block_proposals.len();
                    assert(mid.block_proposals[j] == uncle_prop_rows(sub)[k]);
                    lemma_upr_owner(sub, k);
                    let w = choose|w: int|
                        0 <= w < sub.len() && (#[trigger] sub[w]).header.hash == uncle_prop_rows(
                            sub,
                        )[k].block_hash;
                    assert(us[w].header.hash != u.header.hash);
                }
            }
        }
        assert forall|p: int, q: int| 0 <= p < q < u.proposals.len() implies u.proposals[p]
            != u.proposals[q] by {
            assert(us[us.len() - 1].proposals[p] == u.proposals[p]);
            assert(us[us.len() - 1].proposals[q] == u.proposals[q]);
        }
        ins_sids(mid, u.header.hash, u.proposals);
        frame_insert_proposals(mid, u.header.hash, u.proposals);
        assert(eff_insert_uncles(v, us).uncle_headers =~= v.uncle_headers + uncle_header_rows(us));
        assert(eff_insert_uncles(v, us).block_proposals =~= v.block_proposals + uncle_prop_rows(
            us,
        ));
    }
}

proof fn ins_bt(v: StoreView, bh: Hash32, ts: Seq<TxRec>)
    requires
        forall|i: int|
            0 <= i < v.block_transactions.len() ==> (
            #[trigger] v.block_transactions[i]).block_hash != bh,
        forall|i: int, j: int|
            0 <= i < j < ts.len() ==> (#[trigger] ts[i]).hash != (#[trigger] ts[j]).hash,
    ensures
        eff_insert_block_txs(v, bh, ts).block_transactions == v.block_transactions + bt_rows(
            bh,
            ts,
        ),
    decreases ts.len(),
{
    if ts.len() == 0 {
        assert(v.block_transactions + bt_rows(bh, ts) =~= v.block_transactions);
    } else {
        ins_bt(v, bh, ts.drop_last());
        let prev = eff_insert_block_txs(v, bh, ts.drop_last());
        let br = bt_rows(bh, ts.drop_last());
        let th = ts.last().hash;
        assert(!has_block_tx(prev.block_transactions, bh, th)) by {
            assert forall|i: int| 0 <= i < prev.block_transactions.len() implies !((
            #[trigger] prev.block_transactions[i]).block_hash == bh
                && prev.block_transactions[i].tx_hash == th) by {
                if i < v.block_transactions.len() {
                    assert(prev.block_transactions[i] == v.block_transactions[i]);
                } else {
                    assert(prev.block_transactions[i] == br[i - v.block_transactions.len()]);
                    assert(ts[i - v.block_transactions.len()].hash != th);
                }
            }
        }
        assert(eff_insert_block_txs(v, bh, ts).block_transactions =~= v.block_transactions
            + bt_rows(bh, ts));
    }
}

proof fn ins_cd(v: StoreView, rt: Hash32, ri: usize, ds: Seq<CellDep>)
    requires
        ds.len() <= usize::MAX,
        forall|i: int| 0 <= i < v.tx_cell_deps.len() ==> (#[trigger] v.tx_cell_deps[i]).ref_tx_hash != rt,
    ensures
        eff_insert_cell_deps(v, rt, ri, ds).tx_cell_deps == v.tx_cell_deps + cd_rows(rt, ri, ds),
    decreases ds.len(),
{
    if ds.len() == 0 {
        assert(v.tx_cell_deps + cd_rows(rt, ri, ds) =~= v.tx_cell_deps);
    } else {
        ins_cd(v, rt, ri, ds.drop_last());
        let prev = eff_insert_cell_deps(v, rt, ri, ds.drop_last());
        let cr = cd_rows(rt, ri, ds.drop_last());
        let di = (ds.len() - 1) as usize;
        assert(!has_cell_dep(prev.tx_cell_deps, rt, ri, di)) by {
            assert forall|i: int| 0 <= i < prev.tx_cell_deps.len() implies !((
            #[trigger] prev.tx_cell_deps[i]).ref_tx_hash == rt && prev.tx_cell_deps[i].ref_index
                == ri && prev.tx_cell_deps[i].ref_dep_index == di) by {
                if i < v.tx_cell_deps.len() {
                    assert(prev.tx_cell_deps[i] == v.tx_cell_deps[i]);
                } else {
                    let k = i - v.tx_cell_deps.len();
                    assert(prev.tx_cell_deps[i] == cr[k]);
                    assert(cr[k].ref_dep_index == k as usize);
                    assert(k < ds.len() - 1);
                }
            }
        }
        assert(eff_insert_cell_deps(v, rt, ri, ds).tx_cell_deps =~= v.tx_cell_deps + cd_rows(
            rt,
            ri,
            ds,
        ));
    }
}

proof fn ins_hd(v: StoreView, rt: Hash32, ri: usize, hs: Seq<Hash32>)
    requires
        hs.len() <= usize::MAX,
        forall|i: int|
            0 <= i < v.tx_header_deps.len() ==> (#[trigger] v.tx_header_deps[i]).ref_tx_hash != rt,
    ensures
        eff_insert_header_deps(v, rt, ri, hs).tx_header_deps == v.tx_header_deps + hd_rows(
            rt,
            ri,
            hs,
        ),
    decreases hs.len(),
{
    if hs.len() == 0 {
        assert(v.tx_header_deps + hd_rows(rt, ri, hs) =~= v.tx_header_deps);
    } else {
        ins_hd(v, rt, ri, hs.drop_last());
        let prev = eff_insert_header_deps(v, rt, ri, hs.drop_last());
        let hr = hd_rows(rt, ri, hs.drop_last());
        let di = (hs.len() - 1) as usize;
        assert(!has_header_dep(prev.tx_header_deps, rt, ri, di)) by {
            assert forall|i: int| 0 <= i < prev.tx_header_deps.len() implies !((
            #[trigger] prev.tx_header_deps[i]).ref_tx_hash == rt
                && prev.tx_header_deps[i].ref_index == ri && prev.tx_header_deps[i].ref_dep_index
                == di) by {
                if i < v.tx_header_deps.len() {
                    assert(prev.tx_header_deps[i] == v.tx_header_deps[i]);
                } else {
                    let k = i - v.tx_header_deps.len();
                    assert(prev.tx_header_deps[i] == hr[k]);
                    assert(hr[k].ref_dep_index == k as usize);
                    assert(k < hs.len() - 1);
                }
            }
        }
        assert(eff_insert_header_deps(v, rt, ri, hs).tx_header_deps =~= v.tx_header_deps
            + hd_rows(rt, ri, hs));
    }
}

proof fn ins_wit(v: StoreView, rt: Hash32, ri: usize, ws: Seq<Seq<u8>>)
    requires
        ws.len() <= usize::MAX,
        forall|i: int|
            0 <= i < v.tx_witnesses.len() ==> (#[trigger] v.tx_witnesses[i]).ref_tx_hash != rt,
    ensures
        eff_insert_witnesses(v, rt, ri, ws).tx_witnesses == v.tx_witnesses + wit_rows(rt, ri, ws),
    decreases ws.len(),
{
    if ws.len() == 0 {
        assert(v.tx_witnesses + wit_rows(rt, ri, ws) =~= v.tx_witnesses);
    } else {
        ins_wit(v, rt, ri, ws.drop_last());
        let prev = eff_insert_witnesses(v, rt, ri, ws.drop_last());
        let wr = wit_rows(rt, ri, ws.drop_last());
        let di = (ws.len() - 1) as usize;
        assert(!has_witness(prev.tx_witnesses, rt, ri, di)) by {
            assert forall|i: int| 0 <= i < prev.tx_witnesses.len() implies !((
            #[trigger] prev.tx_witnesses[i]).ref_tx_hash == rt && prev.tx_witnesses[i].ref_index
                == ri && prev.tx_witnesses[i].ref_dep_index == di) by {
                if i < v.tx_witnesses.len() {
                    assert(prev.tx_witnesses[i] == v.tx_witnesses[i]);
                } else {
                    let k = i - v.tx_witnesses.len();
                    assert(prev.tx_witnesses[i] == wr[k]);
                    assert(wr[k].ref_dep_index == k as usize);
                    assert(k < ws.len() - 1);
                }
            }
        }
        assert(eff_insert_witnesses(v, rt, ri, ws).tx_witnesses =~= v.tx_witnesses + wit_rows(
            rt,
            ri,
            ws,
        ));
    }
}

proof fn ins_apply_txs(v: StoreView, ts: Seq<TxRec>)
    requires
        forall|i: int, j: int|
            0 <= i < v.tx_cell_deps.len() && 0 <= j < ts.len() ==> (
            #[trigger] v.tx_cell_deps[i]).ref_tx_hash != (#[trigger] ts[j]).hash,
        forall|i: int, j: int|
            0 <= i < v.tx_header_deps.len() && 0 <= j < ts.len() ==> (
            #[trigger] v.tx_header_deps[i]).ref_tx_hash != (#[trigger] ts[j]).hash,
        forall|i: int, j: int|
            0 <= i < v.tx_witnesses.len() && 0 <= j < ts.len() ==> (
            #[trigger] v.tx_witnesses[i]).ref_tx_hash != (#[trigger] ts[j]).hash,
        forall|j: int| 0 <= j < ts.len() ==> !has_tx(v.transactions, (#[trigger] ts[j]).hash),
        forall|i: int, j: int|
            0 <= i < j < ts.len() ==> (#[trigger] ts[i]).hash != (#[trigger] ts[j]).hash,
        forall|j: int|
            0 <= j < ts.len() ==> (#[trigger] ts[j]).cell_deps.len() <= usize::MAX
                && ts[j].header_deps.len() <= usize::MAX && ts[j].witnesses.len() <= usize::MAX,
    ensures
        eff_apply_txs(v, ts).transactions == v.transactions + tx_rows(ts),
        eff_apply_txs(v, ts).tx_cell_deps == v.tx_cell_deps + all_cd_rows(ts),
        eff_apply_txs(v, ts).tx_header_deps == v.tx_header_deps + all_hd_rows(ts),
        eff_apply_txs(v, ts).tx_witnesses == v.tx_witnesses + all_wit_rows(ts),
    decreases ts.len(),
{
    if ts.len() == 0 {
        assert(v.transactions + tx_rows(ts) =~= v.transactions);
        assert(v.tx_cell_deps + all_cd_rows(ts) =~= v.tx_cell_deps);
        assert(v.tx_header_deps + all_hd_rows(ts) =~= v.tx_header_deps);
        assert(v.tx_witnesses + all_wit_rows(ts) =~= v.tx_witnesses);
    } else {
        let sub = ts.drop_last();
        ins_apply_txs(v, sub);
        let prev = eff_apply_txs(v, sub);
        frame_apply_txs(v, sub);
        let t = ts.last();
        let ri = (ts.len() - 1) as usize;
        // the last transaction's hash is fresh in every current table
        assert(forall|i: int|
            0 <= i < prev.tx_cell_deps.len() ==> (#[trigger] prev.tx_cell_deps[i]).ref_tx_hash
                != t.hash) by {
            assert forall|i: int| 0 <= i < prev.tx_cell_deps.len() implies (
            #[trigger] prev.tx_cell_deps[i]).ref_tx_hash != t.hash by {
                if i < v.tx_cell_deps.len() {
                    assert(prev.tx_cell_deps[i] == v.tx_cell_deps[i]);
                    assert(v.tx_cell_deps[i].ref_tx_hash != ts[ts.len() - 1].hash);
                } else {
                    let k = i - v.tx_cell_deps.len();
                    assert(prev.tx_cell_deps[i] == all_cd_rows(sub)[k]);
                    lemma_acd_owner(sub, k);
                    let j = choose|j: int|
                        0 <= j < sub.len() && (#[trigger] sub[j]).hash == all_cd_rows(sub)[k].ref_tx_hash;
                    assert(ts[j].hash != t.hash);
                }
            }
        }
        assert(forall|i: int|
            0 <= i < prev.tx_header_deps.len() ==> (#[trigger] prev.tx_header_deps[i]).ref_tx_hash
                != t.hash) by {
            assert forall|i: int| 0 <= i < prev.tx_header_deps.len() implies (
            #[trigger] prev.tx_header_deps[i]).ref_tx_hash != t.hash by {
                if i < v.tx_header_deps.len() {
                    assert(prev.tx_header_deps[i] == v.tx_header_deps[i]);
                    assert(v.tx_header_deps[i].ref_tx_hash != ts[ts.len() - 1].hash);
                } else {
                    let k = i - v.tx_header_deps.len();
                    assert(prev.tx_header_deps[i] == all_hd_rows(sub)[k]);
                    lemma_ahd_owner(sub, k);
                    let j = choose|j: int|
                        0 <= j < sub.len() && (#[trigger] sub[j]).hash == all_hd_rows(sub)[k].ref_tx_hash;
                    assert(ts[j].hash != t.hash);
                }
            }
        }
        assert(forall|i: int|
            0 <= i < prev.tx_witnesses.len() ==> (#[trigger] prev.tx_witnesses[i]).ref_tx_hash
                != t.hash) by {
            assert forall|i: int| 0 <= i < prev.tx_witnesses.len() implies (
            #[trigger] prev.tx_witnesses[i]).ref_tx_hash != t.hash by {
                if i < v.tx_witnesses.len() {
                    assert(prev.tx_witnesses[i] == v.tx_witnesses[i]);
                    assert(v.tx_witnesses[i].ref_tx_hash != ts[ts.len() - 1].hash);
                } else {
                    let k = i - v.tx_witnesses.len();
                    assert(prev.tx_witnesses[i] == all_wit_rows(sub)[k]);
                    lemma_awit_owner(sub, k);
                    let j = choose|j: int|
                        0 <= j < sub.len() && (#[trigger] sub[j]).hash == all_wit_rows(sub)[k].ref_tx_hash;
                    assert(ts[j].hash != t.hash);
                }
            }
        }
        // the dependency folds of the last transaction
        assert(ts[ts.len() - 1].cell_deps.len() <= usize::MAX);
        ins_cd(prev, t.hash, ri, t.cell_deps);
        frame_insert_cell_deps(prev, t.hash, ri, t.cell_deps);
        let v1 = eff_insert_cell_deps(prev, t.hash, ri, t.cell_deps);
        ins_hd(v1, t.hash, ri, t.header_deps);
        frame_insert_header_deps(v1, t.hash, ri, t.header_deps);
        let v2 = eff_insert_header_deps(v1, t.hash, ri, t.header_deps);
        ins_wit(v2, t.hash, ri, t.witnesses);
        frame_insert_witnesses(v2, t.hash, ri, t.witnesses);
        let v3 = eff_insert_witnesses(v2, t.hash, ri, t.witnesses);
        // the transaction row itself is fresh
        assert(!has_tx(v3.transactions, t.hash)) by {
            assert(v3.transactions == prev.transactions);
            assert forall|i: int| 0 <= i < prev.transactions.len() implies (
            #[trigger] prev.transactions[i]).hash != t.hash by {
                if i < v.transactions.len() {
                    assert(prev.transactions[i] == v.transactions[i]);
                    assert(!has_tx(v.transactions, ts[ts.len() - 1].hash));
                    if prev.transactions[i].hash == t.hash {
                        assert(has_tx(v.transactions, t.hash));
                    }
                } else {
                    assert(prev.transactions[i] == tx_rows(sub)[i - v.transactions.len()]);
                    assert(ts[i - v.transactions.len()].hash != t.hash);
                }
            }
        }
        let v4 = eff_insert_tx_row(v3, t);
        // the consume and output phases leave these four tables alone
        let v5 = if ri != 0 {
            StoreView { cells: eff_consume_cells(v4.cells, t.hash, t.inputs), ..v4 }
        } else {
            v4
        };
        frame_insert_cells(v5, t.hash, t.outputs, t.outputs_data);
        assert(eff_apply_txs(v, ts).transactions =~= v.transactions + tx_rows(ts));
        assert(eff_apply_txs(v, ts).tx_cell_deps =~= v.tx_cell_deps + all_cd_rows(ts));
        assert(eff_apply_txs(v, ts).tx_header_deps =~= v.tx_header_deps + all_hd_rows(ts));
        assert(eff_apply_txs(v, ts).tx_witnesses =~= v.tx_witnesses + all_wit_rows(ts));
    }
}


// ------------------------------------------------------------------
// what removal filters out of each table
// ------------------------------------------------------------------
/// Removing a list of transactions acts on the four transaction-owned tables
/// as one big filter by ownership.
proof fn rem_txs_tables(v: StoreView, hs: Seq<Hash32>)
    ensures
        eff_remove_txs(v, hs).transactions == v.transactions.filter(
            |r: TxRow| !hs.contains(r.hash),
        ),
        eff_remove_txs(v, hs).tx_cell_deps == v.tx_cell_deps.filter(
            |r: CellDepRow| !hs.contains(r.ref_tx_hash),
        ),
        eff_remove_txs(v, hs).tx_header_deps == v.tx_header_deps.filter(
            |r: HeaderDepRow| !hs.contains(r.ref_tx_hash),
        ),
        eff_remove_txs(v, hs).tx_witnesses == v.tx_witnesses.filter(
            |r: WitnessRec| !hs.contains(r.ref_tx_hash),
        ),
    decreases hs.len(),
{
    if hs.len() == 0 {
        assert(forall|i: int|
            0 <= i < v.transactions.len() ==> !hs.contains((#[trigger] v.transactions[i]).hash));
        lemma_filter_all_pass(v.transactions, |r: TxRow| !hs.contains(r.hash));
        assert(forall|i: int|
            0 <= i < v.tx_cell_deps.len() ==> !hs.contains(
                (#[trigger] v.tx_cell_deps[i]).ref_tx_hash,
            ));
        lemma_filter_all_pass(v.tx_cell_deps, |r: CellDepRow| !hs.contains(r.ref_tx_hash));
        assert(forall|i: int|
            0 <= i < v.tx_header_deps.len() ==> !hs.contains(
                (#[trigger] v.tx_header_deps[i]).ref_tx_hash,
            ));
        lemma_filter_all_pass(v.tx_header_deps, |r: HeaderDepRow| !hs.contains(r.ref_tx_hash));
        assert(forall|i: int|
            0 <= i < v.tx_witnesses.len() ==> !hs.contains(
                (#[trigger] v.tx_witnesses[i]).ref_tx_hash,
            ));
        lemma_filter_all_pass(v.tx_witnesses, |r: WitnessRec| !hs.contains(r.ref_tx_hash));
    } else {
        let prefix = hs.drop_last();
        let last = hs.last();
        rem_txs_tables(v, prefix);
        let mid = eff_remove_txs(v, prefix);
        // membership in the whole list is membership in the prefix or the last
        assert(forall|x: Hash32|
            #[trigger] hs.contains(x) == (prefix.contains(x) || x == last)) by {
            assert forall|x: Hash32| #[trigger]
                hs.contains(x) == (prefix.contains(x) || x == last) by {
                if hs.contains(x) {
                    let i = choose|i: int| 0 <= i < hs.len() && hs[i] == x;
                    if i < hs.len() - 1 {
                        assert(prefix[i] == x);
                    }
                }
                if prefix.contains(x) {
                    let i = choose|i: int| 0 <= i < prefix.len() && prefix[i] == x;
                    assert(hs[i] == x);
                }
                assert(hs[hs.len() - 1] == last);
            }
        }
        let m1 = eff_remove_transaction(mid, last);
        // the later per-transaction phases leave these four tables alone
        let m2 = StoreView { cells: eff_restore_cells(m1.cells, last), ..m1 };
        let rows = m2.cells.filter(|r: CellRow| r.tx_hash == last);
        frame_gc_cells(
            StoreView { cells: m2.cells.filter(|r: CellRow| r.tx_hash != last), ..m2 },
            rows,
        );
        // one more filter composes into the big one
        lemma_filter_filter(
            v.transactions,
            |r: TxRow| !prefix.contains(r.hash),
            |r: TxRow| r.hash != last,
            |r: TxRow| !hs.contains(r.hash),
        );
        lemma_filter_filter(
            v.tx_cell_deps,
            |r: CellDepRow| !prefix.contains(r.ref_tx_hash),
            |r: CellDepRow| r.ref_tx_hash != last,
            |r: CellDepRow| !hs.contains(r.ref_tx_hash),
        );
        lemma_filter_filter(
            v.tx_header_deps,
            |r: HeaderDepRow| !prefix.contains(r.ref_tx_hash),
            |r: HeaderDepRow| r.ref_tx_hash != last,
            |r: HeaderDepRow| !hs.contains(r.ref_tx_hash),
        );
        lemma_filter_filter(
            v.tx_witnesses,
            |r: WitnessRec| !prefix.contains(r.ref_tx_hash),
            |r: WitnessRec| r.ref_tx_hash != last,
            |r: WitnessRec| !hs.contains(r.ref_tx_hash),
        );
    }
}

/// Removing a list of uncles whose hashes no other block references acts on
/// the uncle-header and proposal tables as one big filter.
proof fn rem_uncles_tables(v: StoreView, us: Seq<Hash32>)
    requires
        forall|j: int| 0 <= j < us.len() ==> !uncle_linked(v.block_uncles, #[trigger] us[j]),
        forall|j: int| 0 <= j < us.len() ==> !has_header(v.block_headers, #[trigger] us[j]),
    ensures
        eff_remove_uncles(v, us).uncle_headers == v.uncle_headers.filter(
            |r: Header| !us.contains(r.hash),
        ),
        eff_remove_uncles(v, us).block_proposals == v.block_proposals.filter(
            |r: ProposalRow| !us.contains(r.block_hash),
        ),
    decreases us.len(),
{
    if us.len() == 0 {
        assert(forall|i: int|
            0 <= i < v.uncle_headers.len() ==> !us.contains(
                (#[trigger] v.uncle_headers[i]).hash,
            ));
        lemma_filter_all_pass(v.uncle_headers, |r: Header| !us.contains(r.hash));
        assert(forall|i: int|
            0 <= i < v.block_proposals.len() ==> !us.contains(
                (#[trigger] v.block_proposals[i]).block_hash,
            ));
        lemma_filter_all_pass(v.block_proposals, |r: ProposalRow| !us.contains(r.block_hash));
    } else {
        let prefix = us.drop_last();
        let last = us.last();
        assert(forall|j: int| 0 <= j < prefix.len() ==> prefix[j] == us[j]);
        rem_uncles_tables(v, prefix);
        let mid = eff_remove_uncles(v, prefix);
        frame_remove_uncles(v, prefix);
        assert(forall|x: Hash32|
            #[trigger] us.contains(x) == (prefix.contains(x) || x == last)) by {
            assert forall|x: Hash32| #[trigger]
                us.contains(x) == (prefix.contains(x) || x == last) by {
                if us.contains(x) {
                    let i = choose|i: int| 0 <= i < us.len() && us[i] == x;
                    if i < us.len() - 1 {
                        assert(prefix[i] == x);
                    }
                }
                if prefix.contains(x) {
                    let i = choose|i: int| 0 <= i < prefix.len() && prefix[i] == x;
                    assert(us[i] == x);
                }
                assert(us[us.len() - 1] == last);
            }
        }
        // both conditional deletes fire: nothing references the uncle
        assert(!uncle_linked(mid.block_uncles, last)) by {
            assert(us[us.len() - 1] == last);
        }
        let m1 = eff_remove_uncle_header(mid, last);
        assert(!has_header(m1.block_headers, last) && !uncle_linked(m1.block_uncles, last)) by {
            assert(us[us.len() - 1] == last);
        }
        lemma_filter_filter(
            v.uncle_headers,
            |r: Header| !prefix.contains(r.hash),
            |r: Header| r.hash != last,
            |r: Header| !us.contains(r.hash),
        );
        lemma_filter_filter(
            v.block_proposals,
            |r: ProposalRow| !prefix.contains(r.block_hash),
            |r: ProposalRow| r.block_hash != last,
            |r: ProposalRow| !us.contains(r.block_hash),
        );
    }
}

/// A block may be inserted as a round trip only while nothing it carries is
/// already stored: its hash and height are new, its uncles are new, its
/// transactions are new, and the identifiers inside one block are pairwise
/// distinct.
pub open spec fn fresh_block(v: StoreView, b: BlockRec) -> bool {
    &&& !has_header(v.block_headers, b.header.hash)
    &&& !has_number(v.block_headers, b.header.number)
    &&& !uncle_linked(v.block_uncles, b.header.hash)
    &&& forall|i: int|
        0 <= i < b.uncles.len() ==> !has_header(v.uncle_headers, (#[trigger] b.uncles[i]).header.hash)
            && !uncle_linked(v.block_uncles, b.uncles[i].header.hash) && !has_header(
            v.block_headers,
            b.uncles[i].header.hash,
        ) && b.uncles[i].header.hash != b.header.hash
    &&& forall|i: int, j: int|
        0 <= i < j < b.uncles.len() ==> (#[trigger] b.uncles[i]).header.hash != (
        #[trigger] b.uncles[j]).header.hash
    &&& forall|i: int, p: int, q: int|
        #![trigger b.uncles[i].proposals[p], b.uncles[i].proposals[q]]
        0 <= i < b.uncles.len() && 0 <= p < q < b.uncles[i].proposals.len()
            ==> b.uncles[i].proposals[p] != b.uncles[i].proposals[q]
    &&& forall|p: int, q: int| 0 <= p < q < b.proposals.len() ==> b.proposals[p] != b.proposals[q]
    &&& forall|j: int| 0 <= j < b.transactions.len() ==> !has_tx(
        v.transactions,
        (#[trigger] b.transactions[j]).hash,
    )
    &&& forall|i: int, j: int|
        0 <= i < j < b.transactions.len() ==> (#[trigger] b.transactions[i]).hash != (
        #[trigger] b.transactions[j]).hash
    &&& forall|j: int|
        0 <= j < b.transactions.len() ==> (#[trigger] b.transactions[j]).cell_deps.len()
            <= usize::MAX && b.transactions[j].header_deps.len() <= usize::MAX
            && b.transactions[j].witnesses.len() <= usize::MAX
}

/// What insertion appends to each chain-structure table of a well-formed
/// store, for a fresh block.
#[verifier::rlimit(60)]
proof fn insert_block_tables(v: StoreView, b: BlockRec)
    requires
        ref_inv(v),
        fresh_block(v, b),
    ensures
        ({
            let w1 = eff_insert_block(v, b);
            &&& w1.block_headers == v.block_headers.push(b.header)
            &&& w1.block_uncles == v.block_uncles + link_rows(b.header.hash, b.uncles)
            &&& w1.uncle_headers == v.uncle_headers + uncle_header_rows(b.uncles)
            &&& w1.block_proposals == (v.block_proposals + uncle_prop_rows(b.uncles)) + sid_rows(
                b.header.hash,
                b.proposals,
            )
            &&& w1.block_transactions == v.block_transactions + bt_rows(
                b.header.hash,
                b.transactions,
            )
            &&& w1.transactions == v.transactions + tx_rows(b.transactions)
            &&& w1.tx_cell_deps == v.tx_cell_deps + all_cd_rows(b.transactions)
            &&& w1.tx_header_deps == v.tx_header_deps + all_hd_rows(b.transactions)
            &&& w1.tx_witnesses == v.tx_witnesses + all_wit_rows(b.transactions)
        }),
{
    let h = b.header;
    let bh = h.hash;
    let us = b.uncles;
    let ts = b.transactions;
    let v1 = eff_insert_block_header(v, h);
    assert(v1.block_headers == v.block_headers.push(h));
    assert(forall|i: int|
        0 <= i < v1.block_uncles.len() ==> (#[trigger] v1.block_uncles[i]).block_hash != bh) by {
        assert forall|i: int| 0 <= i < v1.block_uncles.len() implies (
        #[trigger] v1.block_uncles[i]).block_hash != bh by {
            assert(has_header(v.block_headers, v.block_uncles[i].block_hash));
            if v1.block_uncles[i].block_hash == bh {
                assert(has_header(v.block_headers, bh));
            }
        }
    }
    ins_links(v1, bh, us);
    frame_insert_block_uncles(v1, bh, us);
    let v2 = eff_insert_block_uncles(v1, bh, us);
    assert(v2.block_uncles == v.block_uncles + link_rows(bh, us));
    assert(forall|i: int, j: int|
        0 <= i < us.len() && 0 <= j < v2.block_proposals.len() ==> (
        #[trigger] v2.block_proposals[j]).block_hash != (#[trigger] us[i]).header.hash) by {
        assert forall|i: int, j: int|
            0 <= i < us.len() && 0 <= j < v2.block_proposals.len() implies (
        #[trigger] v2.block_proposals[j]).block_hash != (#[trigger] us[i]).header.hash by {
            assert(v2.block_proposals[j] == v.block_proposals[j]);
            assert(has_header(v.block_headers, v.block_proposals[j].block_hash) || uncle_linked(
                v.block_uncles,
                v.block_proposals[j].block_hash,
            ));
            if v.block_proposals[j].block_hash == us[i].header.hash {
                assert(has_header(v.block_headers, us[i].header.hash) || uncle_linked(
                    v.block_uncles,
                    us[i].header.hash,
                ));
            }
        }
    }
    ins_uncles(v2, us);
    frame_insert_uncles(v2, us);
    let v3 = eff_insert_uncles(v2, us);
    assert(v3.uncle_headers == v.uncle_headers + uncle_header_rows(us));
    assert(v3.block_proposals == v.block_proposals + uncle_prop_rows(us));
    assert(forall|j: int|
        0 <= j < v3.block_proposals.len() ==> (#[trigger] v3.block_proposals[j]).block_hash != bh)
        by {
        assert forall|j: int| 0 <= j < v3.block_proposals.len() implies (
        #[trigger] v3.block_proposals[j]).block_hash != bh by {
            if j < v.block_proposals.len() {
                assert(v3.block_proposals[j] == v.block_proposals[j]);
                if v.block_proposals[j].block_hash == bh {
                    assert(has_header(v.block_headers, bh) || uncle_linked(v.block_uncles, bh));
                }
            } else {
                let k = j - v.block_proposals.len();
                assert(v3.block_proposals[j] == uncle_prop_rows(us)[k]);
                lemma_upr_owner(us, k);
                let w = choose|w: int|
                    0 <= w < us.len() && (#[trigger] us[w]).header.hash == uncle_prop_rows(us)[k].block_hash;
                assert(us[w].header.hash != bh);
            }
        }
    }
    ins_sids(v3, bh, b.proposals);
    frame_insert_proposals(v3, bh, b.proposals);
    let v4 = eff_insert_proposals(v3, bh, b.proposals);
    assert(v4.block_proposals == (v.block_proposals + uncle_prop_rows(us)) + sid_rows(
        bh,
        b.proposals,
    ));
    assert(forall|i: int|
        0 <= i < v4.block_transactions.len() ==> (#[trigger] v4.block_transactions[i]).block_hash
            != bh) by {
        assert forall|i: int| 0 <= i < v4.block_transactions.len() implies (
        #[trigger] v4.block_transactions[i]).block_hash != bh by {
            assert(v4.block_transactions[i] == v.block_transactions[i]);
            assert(has_header(v.block_headers, v.block_transactions[i].block_hash));
            if v.block_transactions[i].block_hash == bh {
                assert(has_header(v.block_headers, bh));
            }
        }
    }
    ins_bt(v4, bh, ts);
    frame_insert_block_txs(v4, bh, ts);
    let v5 = eff_insert_block_txs(v4, bh, ts);
    assert(v5.block_transactions == v.block_transactions + bt_rows(bh, ts));
    assert(forall|i: int, j: int|
        0 <= i < v5.tx_cell_deps.len() && 0 <= j < ts.len() ==> (
        #[trigger] v5.tx_cell_deps[i]).ref_tx_hash != (#[trigger] ts[j]).hash) by {
        assert forall|i: int, j: int|
            0 <= i < v5.tx_cell_deps.len() && 0 <= j < ts.len() implies (
        #[trigger] v5.tx_cell_deps[i]).ref_tx_hash != (#[trigger] ts[j]).hash by {
            assert(v5.tx_cell_deps[i] == v.tx_cell_deps[i]);
            assert(has_tx(v.transactions, v.tx_cell_deps[i].ref_tx_hash));
            if v.tx_cell_deps[i].ref_tx_hash == ts[j].hash {
                assert(has_tx(v.transactions, ts[j].hash));
            }
        }
    }
    assert(forall|i: int, j: int|
        0 <= i < v5.tx_header_deps.len() && 0 <= j < ts.len() ==> (
        #[trigger] v5.tx_header_deps[i]).ref_tx_hash != (#[trigger] ts[j]).hash) by {
        assert forall|i: int, j: int|
            0 <= i < v5.tx_header_deps.len() && 0 <= j < ts.len() implies (
        #[trigger] v5.tx_header_deps[i]).ref_tx_hash != (#[trigger] ts[j]).hash by {
            assert(v5.tx_header_deps[i] == v.tx_header_deps[i]);
            assert(has_tx(v.transactions, v.tx_header_deps[i].ref_tx_hash));
            if v.tx_header_deps[i].ref_tx_hash == ts[j].hash {
                assert(has_tx(v.transactions, ts[j].hash));
            }
        }
    }
    assert(forall|i: int, j: int|
        0 <= i < v5.tx_witnesses.len() && 0 <= j < ts.len() ==> (
        #[trigger] v5.tx_witnesses[i]).ref_tx_hash != (#[trigger] ts[j]).hash) by {
        assert forall|i: int, j: int|
            0 <= i < v5.tx_witnesses.len() && 0 <= j < ts.len() implies (
        #[trigger] v5.tx_witnesses[i]).ref_tx_hash != (#[trigger] ts[j]).hash by {
            assert(v5.tx_witnesses[i] == v.tx_witnesses[i]);
            assert(has_tx(v.transactions, v.tx_witnesses[i].ref_tx_hash));
            if v.tx_witnesses[i].ref_tx_hash == ts[j].hash {
                assert(has_tx(v.transactions, ts[j].hash));
            }
        }
    }
    ins_apply_txs(v5, ts);
    frame_apply_txs(v5, ts);
}

/// Removing exactly the block's transactions from the post-insert tables
/// leaves the four transaction-owned tables as they were.
#[verifier::rlimit(60)]
proof fn restore_tx_tables(v: StoreView, ts: Seq<TxRec>, cap: Seq<Hash32>)
    requires
        ref_inv(v),
        cap == Seq::new(ts.len(), |j: int| ts[j].hash),
        forall|j: int| 0 <= j < ts.len() ==> !has_tx(v.transactions, (#[trigger] ts[j]).hash),
    ensures
        (v.transactions + tx_rows(ts)).filter(|r: TxRow| !cap.contains(r.hash)) == v.transactions,
        (v.tx_cell_deps + all_cd_rows(ts)).filter(|r: CellDepRow| !cap.contains(r.ref_tx_hash))
            == v.tx_cell_deps,
        (v.tx_header_deps + all_hd_rows(ts)).filter(
            |r: HeaderDepRow| !cap.contains(r.ref_tx_hash),
        ) == v.tx_header_deps,
        (v.tx_witnesses + all_wit_rows(ts)).filter(|r: WitnessRec| !cap.contains(r.ref_tx_hash))
            == v.tx_witnesses,
{
    assert((v.transactions + tx_rows(ts)).filter(|r: TxRow| !cap.contains(r.hash))
        =~= v.transactions) by {
        let p = |r: TxRow| !cap.contains(r.hash);
        Seq::filter_distributes_over_add(v.transactions, tx_rows(ts), p);
        assert(forall|i: int| 0 <= i < v.transactions.len() ==> p(#[trigger] v.transactions[i]))
            by {
            assert forall|i: int| 0 <= i < v.transactions.len() implies p(
                #[trigger] v.transactions[i],
            ) by {
                if cap.contains(v.transactions[i].hash) {
                    let j = choose|j: int| 0 <= j < cap.len() && cap[j] == v.transactions[i].hash;
                    assert(has_tx(v.transactions, ts[j].hash));
                }
            }
        }
        lemma_filter_all_pass(v.transactions, p);
        assert(forall|i: int| 0 <= i < tx_rows(ts).len() ==> !p(#[trigger] tx_rows(ts)[i])) by {
            assert forall|i: int| 0 <= i < tx_rows(ts).len() implies !p(
                #[trigger] tx_rows(ts)[i],
            ) by {
                assert(cap[i] == ts[i].hash);
            }
        }
        lemma_filter_none_pass(tx_rows(ts), p);
    }
    assert((v.tx_cell_deps + all_cd_rows(ts)).filter(
        |r: CellDepRow| !cap.contains(r.ref_tx_hash),
    ) =~= v.tx_cell_deps) by {
        let p = |r: CellDepRow| !cap.contains(r.ref_tx_hash);
        Seq::filter_distributes_over_add(v.tx_cell_deps, all_cd_rows(ts), p);
        assert(forall|i: int| 0 <= i < v.tx_cell_deps.len() ==> p(#[trigger] v.tx_cell_deps[i]))
            by {
            assert forall|i: int| 0 <= i < v.tx_cell_deps.len() implies p(
                #[trigger] v.tx_cell_deps[i],
            ) by {
                assert(has_tx(v.transactions, v.tx_cell_deps[i].ref_tx_hash));
                if cap.contains(v.tx_cell_deps[i].ref_tx_hash) {
                    let j = choose|j: int|
                        0 <= j < cap.len() && cap[j] == v.tx_cell_deps[i].ref_tx_hash;
                    assert(has_tx(v.transactions, ts[j].hash));
                }
            }
        }
        lemma_filter_all_pass(v.tx_cell_deps, p);
        assert(forall|i: int| 0 <= i < all_cd_rows(ts).len() ==> !p(#[trigger] all_cd_rows(ts)[i]))
            by {
            assert forall|i: int| 0 <= i < all_cd_rows(ts).len() implies !p(
                #[trigger] all_cd_rows(ts)[i],
            ) by {
                lemma_acd_owner(ts, i);
                let j = choose|j: int|
                    0 <= j < ts.len() && (#[trigger] ts[j]).hash == all_cd_rows(ts)[i].ref_tx_hash;
                assert(cap[j] == ts[j].hash);
            }
        }
        lemma_filter_none_pass(all_cd_rows(ts), p);
    }
    assert((v.tx_header_deps + all_hd_rows(ts)).filter(
        |r: HeaderDepRow| !cap.contains(r.ref_tx_hash),
    ) =~= v.tx_header_deps) by {
        let p = |r: HeaderDepRow| !cap.contains(r.ref_tx_hash);
        Seq::filter_distributes_over_add(v.tx_header_deps, all_hd_rows(ts), p);
        assert(forall|i: int| 0 <= i < v.tx_header_deps.len() ==> p(#[trigger] v.tx_header_deps[i]))
            by {
            assert forall|i: int| 0 <= i < v.tx_header_deps.len() implies p(
                #[trigger] v.tx_header_deps[i],
            ) by {
                assert(has_tx(v.transactions, v.tx_header_deps[i].ref_tx_hash));
                if cap.contains(v.tx_header_deps[i].ref_tx_hash) {
                    let j = choose|j: int|
                        0 <= j < cap.len() && cap[j] == v.tx_header_deps[i].ref_tx_hash;
                    assert(has_tx(v.transactions, ts[j].hash));
                }
            }
        }
        lemma_filter_all_pass(v.tx_header_deps, p);
        assert(forall|i: int| 0 <= i < all_hd_rows(ts).len() ==> !p(#[trigger] all_hd_rows(ts)[i]))
            by {
            assert forall|i: int| 0 <= i < all_hd_rows(ts).len() implies !p(
                #[trigger] all_hd_rows(ts)[i],
            ) by {
                lemma_ahd_owner(ts, i);
                let j = choose|j: int|
                    0 <= j < ts.len() && (#[trigger] ts[j]).hash == all_hd_rows(ts)[i].ref_tx_hash;
                assert(cap[j] == ts[j].hash);
            }
        }
        lemma_filter_none_pass(all_hd_rows(ts), p);
    }
    assert((v.tx_witnesses + all_wit_rows(ts)).filter(
        |r: WitnessRec| !cap.contains(r.ref_tx_hash),
    ) =~= v.tx_witnesses) by {
        let p = |r: WitnessRec| !cap.contains(r.ref_tx_hash);
        Seq::filter_distributes_over_add(v.tx_witnesses, all_wit_rows(ts), p);
        assert(forall|i: int| 0 <= i < v.tx_witnesses.len() ==> p(#[trigger] v.tx_witnesses[i]))
            by {
            assert forall|i: int| 0 <= i < v.tx_witnesses.len() implies p(
                #[trigger] v.tx_witnesses[i],
            ) by {
                assert(has_tx(v.transactions, v.tx_witnesses[i].ref_tx_hash));
                if cap.contains(v.tx_witnesses[i].ref_tx_hash) {
                    let j = choose|j: int|
                        0 <= j < cap.len() && cap[j] == v.tx_witnesses[i].ref_tx_hash;
                    assert(has_tx(v.transactions, ts[j].hash));
                }
            }
        }
        lemma_filter_all_pass(v.tx_witnesses, p);
        assert(forall|i: int| 0 <= i < all_wit_rows(ts).len() ==> !p(#[trigger] all_wit_rows(ts)[i]))
            by {
            assert forall|i: int| 0 <= i < all_wit_rows(ts).len() implies !p(
                #[trigger] all_wit_rows(ts)[i],
            ) by {
                lemma_awit_owner(ts, i);
                let j = choose|j: int|
                    0 <= j < ts.len() && (#[trigger] ts[j]).hash == all_wit_rows(ts)[i].ref_tx_hash;
                assert(cap[j] == ts[j].hash);
            }
        }
        lemma_filter_none_pass(all_wit_rows(ts), p);
    }
}

/// Filtering the captured uncle hashes back out restores the uncle-header
/// and proposal tables.
#[verifier::rlimit(60)]
proof fn restore_uncle_tables(v: StoreView, b: BlockRec, capu: Seq<Hash32>)
    requires
        ref_inv(v),
        fresh_block(v, b),
        capu == Seq::new(b.uncles.len(), |i: int| b.uncles[i].header.hash),
    ensures
        (v.uncle_headers + uncle_header_rows(b.uncles)).filter(
            |r: Header| !capu.contains(r.hash),
        ) == v.uncle_headers,
        (v.block_proposals + uncle_prop_rows(b.uncles)).filter(
            |r: ProposalRow| !capu.contains(r.block_hash),
        ) == v.block_proposals,
{
    let us = b.uncles;
    assert((v.uncle_headers + uncle_header_rows(us)).filter(|r: Header| !capu.contains(r.hash))
        =~= v.uncle_headers) by {
        let p = |r: Header| !capu.contains(r.hash);
        Seq::filter_distributes_over_add(v.uncle_headers, uncle_header_rows(us), p);
        assert(forall|i: int| 0 <= i < v.uncle_headers.len() ==> p(#[trigger] v.uncle_headers[i]))
            by {
            assert forall|i: int| 0 <= i < v.uncle_headers.len() implies p(
                #[trigger] v.uncle_headers[i],
            ) by {
                if capu.contains(v.uncle_headers[i].hash) {
                    let j = choose|j: int| 0 <= j < capu.len() && capu[j] == v.uncle_headers[i].hash;
                    assert(has_header(v.uncle_headers, us[j].header.hash));
                }
            }
        }
        lemma_filter_all_pass(v.uncle_headers, p);
        assert(forall|i: int|
            0 <= i < uncle_header_rows(us).len() ==> !p(#[trigger] uncle_header_rows(us)[i])) by {
            assert forall|i: int| 0 <= i < uncle_header_rows(us).len() implies !p(
                #[trigger] uncle_header_rows(us)[i],
            ) by {
                assert(capu[i] == us[i].header.hash);
            }
        }
        lemma_filter_none_pass(uncle_header_rows(us), p);
    }
    assert((v.block_proposals + uncle_prop_rows(us)).filter(
        |r: ProposalRow| !capu.contains(r.block_hash),
    ) =~= v.block_proposals) by {
        let p = |r: ProposalRow| !capu.contains(r.block_hash);
        Seq::filter_distributes_over_add(v.block_proposals, uncle_prop_rows(us), p);
        assert(forall|i: int| 0 <= i < v.block_proposals.len() ==> p(#[trigger] v.block_proposals[i]))
            by {
            assert forall|i: int| 0 <= i < v.block_proposals.len() implies p(
                #[trigger] v.block_proposals[i],
            ) by {
                if capu.contains(v.block_proposals[i].block_hash) {
                    let j = choose|j: int|
                        0 <= j < capu.len() && capu[j] == v.block_proposals[i].block_hash;
                    assert(v.block_proposals[i].block_hash == us[j].header.hash);
                    assert(has_header(v.block_headers, v.block_proposals[i].block_hash)
                        || uncle_linked(v.block_uncles, v.block_proposals[i].block_hash));
                }
            }
        }
        lemma_filter_all_pass(v.block_proposals, p);
        assert(forall|i: int|
            0 <= i < uncle_prop_rows(us).len() ==> !p(#[trigger] uncle_prop_rows(us)[i])) by {
            assert forall|i: int| 0 <= i < uncle_prop_rows(us).len() implies !p(
                #[trigger] uncle_prop_rows(us)[i],
            ) by {
                lemma_upr_owner(us, i);
                let w = choose|w: int|
                    0 <= w < us.len() && (#[trigger] us[w]).header.hash == uncle_prop_rows(us)[i].block_hash;
                assert(capu[w] == us[w].header.hash);
            }
        }
        lemma_filter_none_pass(uncle_prop_rows(us), p);
    }
}

/// The links the block contributed are exactly what removal captures, and
/// deleting them restores the link tables.
#[verifier::rlimit(60)]
proof fn capture_links(v: StoreView, b: BlockRec)
    requires
        ref_inv(v),
        fresh_block(v, b),
    ensures
        (v.block_transactions + bt_rows(b.header.hash, b.transactions)).filter(
            |r: BlockTxRow| r.block_hash == b.header.hash,
        ).map_values(|r: BlockTxRow| r.tx_hash) == Seq::new(
            b.transactions.len(),
            |j: int| b.transactions[j].hash,
        ),
        (v.block_transactions + bt_rows(b.header.hash, b.transactions)).filter(
            |r: BlockTxRow| r.block_hash != b.header.hash,
        ) == v.block_transactions,
        (v.block_uncles + link_rows(b.header.hash, b.uncles)).filter(
            |r: BlockUncleRow| r.block_hash == b.header.hash,
        ).map_values(|r: BlockUncleRow| r.uncle_hash) == Seq::new(
            b.uncles.len(),
            |i: int| b.uncles[i].header.hash,
        ),
        (v.block_uncles + link_rows(b.header.hash, b.uncles)).filter(
            |r: BlockUncleRow| r.block_hash != b.header.hash,
        ) == v.block_uncles,
{
    let bh = b.header.hash;
    let ts = b.transactions;
    let us = b.uncles;
    let hseq = Seq::new(ts.len(), |j: int| ts[j].hash);
    let useq = Seq::new(us.len(), |i: int| us[i].header.hash);
    let predbt = |r: BlockTxRow| r.block_hash == bh;
    let npredbt = |r: BlockTxRow| r.block_hash != bh;
    assert(forall|i: int|
        0 <= i < v.block_transactions.len() ==> !predbt(#[trigger] v.block_transactions[i])
            && npredbt(v.block_transactions[i])) by {
        assert forall|i: int| 0 <= i < v.block_transactions.len() implies !predbt(
            #[trigger] v.block_transactions[i],
        ) && npredbt(v.block_transactions[i]) by {
            assert(has_header(v.block_headers, v.block_transactions[i].block_hash));
            if v.block_transactions[i].block_hash == bh {
                assert(has_header(v.block_headers, bh));
            }
        }
    }
    assert(forall|i: int| 0 <= i < bt_rows(bh, ts).len() ==> predbt(#[trigger] bt_rows(bh, ts)[i]));
    Seq::filter_distributes_over_add(v.block_transactions, bt_rows(bh, ts), predbt);
    Seq::filter_distributes_over_add(v.block_transactions, bt_rows(bh, ts), npredbt);
    lemma_filter_none_pass(v.block_transactions, predbt);
    lemma_filter_all_pass(bt_rows(bh, ts), predbt);
    lemma_filter_all_pass(v.block_transactions, npredbt);
    lemma_filter_none_pass(bt_rows(bh, ts), npredbt);
    assert((v.block_transactions + bt_rows(bh, ts)).filter(predbt) =~= bt_rows(bh, ts));
    assert(bt_rows(bh, ts).map_values(|r: BlockTxRow| r.tx_hash) =~= hseq);
    assert((v.block_transactions + bt_rows(bh, ts)).filter(npredbt) =~= v.block_transactions);
    let predl = |r: BlockUncleRow| r.block_hash == bh;
    let npredl = |r: BlockUncleRow| r.block_hash != bh;
    assert(forall|i: int|
        0 <= i < v.block_uncles.len() ==> !predl(#[trigger] v.block_uncles[i]) && npredl(
            v.block_uncles[i],
        )) by {
        assert forall|i: int| 0 <= i < v.block_uncles.len() implies !predl(
            #[trigger] v.block_uncles[i],
        ) && npredl(v.block_uncles[i]) by {
            assert(has_header(v.block_headers, v.block_uncles[i].block_hash));
            if v.block_uncles[i].block_hash == bh {
                assert(has_header(v.block_headers, bh));
            }
        }
    }
    assert(forall|i: int|
        0 <= i < link_rows(bh, us).len() ==> predl(#[trigger] link_rows(bh, us)[i]));
    Seq::filter_distributes_over_add(v.block_uncles, link_rows(bh, us), predl);
    Seq::filter_distributes_over_add(v.block_uncles, link_rows(bh, us), npredl);
    lemma_filter_none_pass(v.block_uncles, predl);
    lemma_filter_all_pass(link_rows(bh, us), predl);
    lemma_filter_all_pass(v.block_uncles, npredl);
    lemma_filter_none_pass(link_rows(bh, us), npredl);
    assert((v.block_uncles + link_rows(bh, us)).filter(predl) =~= link_rows(bh, us));
    assert(link_rows(bh, us).map_values(|r: BlockUncleRow| r.uncle_hash) =~= useq);
    assert((v.block_uncles + link_rows(bh, us)).filter(npredl) =~= v.block_uncles);
}

/// Deleting the proposals of the removed block's own container drops exactly
/// the rows the block contributed for it.
#[verifier::rlimit(60)]
proof fn own_props_restored(v: StoreView, b: BlockRec)
    requires
        ref_inv(v),
        fresh_block(v, b),
    ensures
        ((v.block_proposals + uncle_prop_rows(b.uncles)) + sid_rows(b.header.hash, b.proposals)).filter(
            |r: ProposalRow| r.block_hash != b.header.hash,
        ) == v.block_proposals + uncle_prop_rows(b.uncles),
{
    let bh = b.header.hash;
    let us = b.uncles;
    let p = |r: ProposalRow| r.block_hash != bh;
    Seq::filter_distributes_over_add(
        v.block_proposals + uncle_prop_rows(us),
        sid_rows(bh, b.proposals),
        p,
    );
    Seq::filter_distributes_over_add(v.block_proposals, uncle_prop_rows(us), p);
    assert(forall|i: int| 0 <= i < v.block_proposals.len() ==> p(#[trigger] v.block_proposals[i]))
        by {
        assert forall|i: int| 0 <= i < v.block_proposals.len() implies p(
            #[trigger] v.block_proposals[i],
        ) by {
            if v.block_proposals[i].block_hash == bh {
                assert(has_header(v.block_headers, bh) || uncle_linked(v.block_uncles, bh));
            }
        }
    }
    lemma_filter_all_pass(v.block_proposals, p);
    assert(forall|i: int|
        0 <= i < uncle_prop_rows(us).len() ==> p(#[trigger] uncle_prop_rows(us)[i])) by {
        assert forall|i: int| 0 <= i < uncle_prop_rows(us).len() implies p(
            #[trigger] uncle_prop_rows(us)[i],
        ) by {
            lemma_upr_owner(us, i);
            let w = choose|w: int|
                0 <= w < us.len() && (#[trigger] us[w]).header.hash == uncle_prop_rows(us)[i].block_hash;
            assert(us[w].header.hash != bh);
        }
    }
    lemma_filter_all_pass(uncle_prop_rows(us), p);
    assert(forall|i: int|
        0 <= i < sid_rows(bh, b.proposals).len() ==> !p(#[trigger] sid_rows(bh, b.proposals)[i]));
    lemma_filter_none_pass(sid_rows(bh, b.proposals), p);
    assert(((v.block_proposals + uncle_prop_rows(us)) + sid_rows(bh, b.proposals)).filter(p)
        =~= v.block_proposals + uncle_prop_rows(us));
}

/// After its links are gone, nothing references the removed block's uncles.
#[verifier::rlimit(60)]
proof fn uncles_unreferenced(v: StoreView, b: BlockRec)
    requires
        ref_inv(v),
        fresh_block(v, b),
    ensures
        forall|j: int|
            0 <= j < b.uncles.len() ==> !uncle_linked(
                v.block_uncles,
                (#[trigger] b.uncles[j]).header.hash,
            ),
        forall|j: int|
            0 <= j < b.uncles.len() ==> !has_header(
                v.block_headers.push(b.header),
                (#[trigger] b.uncles[j]).header.hash,
            ),
{
    let h = b.header;
    let us = b.uncles;
    assert forall|j: int| 0 <= j < us.len() implies !has_header(
        v.block_headers.push(h),
        (#[trigger] us[j]).header.hash,
    ) by {
        let s = v.block_headers.push(h);
        assert forall|i: int| 0 <= i < s.len() implies (#[trigger] s[i]).hash != us[j].header.hash
            by {
            if i < v.block_headers.len() {
                assert(s[i] == v.block_headers[i]);
                if v.block_headers[i].hash == us[j].header.hash {
                    assert(has_header(v.block_headers, us[j].header.hash));
                }
            } else {
                assert(s[i] == h);
                assert(us[j].header.hash != h.hash);
            }
        }
    }
}

/// The height query on the post-insert store finds the inserted header.
#[verifier::rlimit(60)]
proof fn block_found(v: StoreView, b: BlockRec)
    requires
        fresh_block(v, b),
    ensures
        first_with_number(v.block_headers.push(b.header), b.header.number) == Option::Some(
            b.header,
        ),
{
    let h = b.header;
    let s2 = v.block_headers.push(h);
    assert(forall|k: int| 0 <= k < v.block_headers.len() ==> (#[trigger] s2[k]).number != h.number)
        by {
        assert forall|k: int| 0 <= k < v.block_headers.len() implies (#[trigger] s2[k]).number
            != h.number by {
            assert(s2[k] == v.block_headers[k]);
            if v.block_headers[k].number == h.number {
                assert(has_number(v.block_headers, h.number));
            }
        }
    }
    lemma_first_with_number_skip(s2, h.number, v.block_headers.len() as int);
    assert(s2.subrange(v.block_headers.len() as int, s2.len() as int) =~= seq![h]);
    assert(first_with_number(seq![h], h.number) == Option::Some(h)) by {
        assert(seq![h].first() == h);
    }
}

/// No link row of the post-insert store carries the block's hash on its
/// uncle side.
#[verifier::rlimit(60)]
proof fn no_link_to_block(v: StoreView, b: BlockRec)
    requires
        ref_inv(v),
        fresh_block(v, b),
    ensures
        !uncle_linked(v.block_uncles + link_rows(b.header.hash, b.uncles), b.header.hash),
{
    let bh = b.header.hash;
    let us = b.uncles;
    let bu = v.block_uncles + link_rows(bh, us);
    assert forall|i: int| 0 <= i < bu.len() implies (#[trigger] bu[i]).uncle_hash != bh by {
        if i < v.block_uncles.len() {
            assert(bu[i] == v.block_uncles[i]);
            if v.block_uncles[i].uncle_hash == bh {
                assert(uncle_linked(v.block_uncles, bh));
            }
        } else {
            assert(bu[i] == link_rows(bh, us)[i - v.block_uncles.len()]);
            assert(us[i - v.block_uncles.len()].header.hash != bh);
        }
    }
}

/// Deleting the inserted header restores the header table.
#[verifier::rlimit(60)]
proof fn header_restored(v: StoreView, b: BlockRec)
    requires
        fresh_block(v, b),
    ensures
        (v.block_headers.push(b.header)).filter(|r: Header| r.hash != b.header.hash)
            == v.block_headers,
{
    let h = b.header;
    let bh = h.hash;
    let p = |r: Header| r.hash != bh;
    lemma_filter_push(v.block_headers, h, p);
    assert(forall|i: int| 0 <= i < v.block_headers.len() ==> p(#[trigger] v.block_headers[i]))
        by {
        assert forall|i: int| 0 <= i < v.block_headers.len() implies p(
            #[trigger] v.block_headers[i],
        ) by {
            if v.block_headers[i].hash == bh {
                assert(has_header(v.block_headers, bh));
            }
        }
    }
    lemma_filter_all_pass(v.block_headers, p);
}

/// Phase one of removal: capturing and deleting the transaction links, then
/// removing each captured transaction, restores the five transaction-side
/// tables and leaves the rest of the store alone.
#[verifier::rlimit(100)]
#[verifier::spinoff_prover]
proof fn remove_tx_phase(v: StoreView, b: BlockRec, w1: StoreView)
    requires
        ref_inv(v),
        fresh_block(v, b),
        w1.block_transactions == v.block_transactions + bt_rows(b.header.hash, b.transactions),
        w1.transactions == v.transactions + tx_rows(b.transactions),
        w1.tx_cell_deps == v.tx_cell_deps + all_cd_rows(b.transactions),
        w1.tx_header_deps == v.tx_header_deps + all_hd_rows(b.transactions),
        w1.tx_witnesses == v.tx_witnesses + all_wit_rows(b.transactions),
    ensures
        ({
            let r2 = eff_remove_txs(
                eff_del_block_txs(w1, b.header.hash),
                captured_txs(w1, b.header.hash),
            );
            &&& r2.block_transactions == v.block_transactions
            &&& r2.transactions == v.transactions
            &&& r2.tx_cell_deps == v.tx_cell_deps
            &&& r2.tx_header_deps == v.tx_header_deps
            &&& r2.tx_witnesses == v.tx_witnesses
            &&& r2.schema == w1.schema
            &&& r2.block_headers == w1.block_headers
            &&& r2.block_uncles == w1.block_uncles
            &&& r2.uncle_headers == w1.uncle_headers
            &&& r2.block_proposals == w1.block_proposals
        }),
{
    let bh = b.header.hash;
    let ts = b.transactions;
    let hseq = Seq::new(ts.len(), |j: int| ts[j].hash);
    capture_links(v, b);
    let cap = captured_txs(w1, bh);
    assert(cap == hseq);
    let r1 = eff_del_block_txs(w1, bh);
    assert(r1.block_transactions == v.block_transactions);
    rem_txs_tables(r1, cap);
    frame_remove_txs(r1, cap);
    restore_tx_tables(v, ts, cap);
}

/// Phase two of removal: dropping the block's own proposals, its uncle links
/// and the now-unreferenced uncle headers and proposals, then the header
/// itself, restores the five chain-structure tables and leaves the rest of
/// the store alone.
#[verifier::rlimit(100)]
#[verifier::spinoff_prover]
proof fn remove_uncle_phase(v: StoreView, b: BlockRec, r2: StoreView)
    requires
        ref_inv(v),
        fresh_block(v, b),
        r2.block_headers == v.block_headers.push(b.header),
        r2.block_uncles == v.block_uncles + link_rows(b.header.hash, b.uncles),
        r2.uncle_headers == v.uncle_headers + uncle_header_rows(b.uncles),
        r2.block_proposals == (v.block_proposals + uncle_prop_rows(b.uncles)) + sid_rows(
            b.header.hash,
            b.proposals,
        ),
    ensures
        ({
            let r3 = eff_remove_own_proposals(r2, b.header.hash);
            let r4 = eff_del_block_uncles(r3, b.header.hash);
            let r5 = eff_remove_uncles(r4, captured_uncles(r3, b.header.hash));
            let r6 = eff_del_block_header(r5, b.header.hash);
            &&& r6.block_headers == v.block_headers
            &&& r6.block_uncles == v.block_uncles
            &&& r6.uncle_headers == v.uncle_headers
            &&& r6.block_proposals == v.block_proposals
            &&& r6.schema == r2.schema
            &&& r6.block_transactions == r2.block_transactions
            &&& r6.transactions == r2.transactions
            &&& r6.tx_cell_deps == r2.tx_cell_deps
            &&& r6.tx_header_deps == r2.tx_header_deps
            &&& r6.tx_witnesses == r2.tx_witnesses
        }),
{
    let h = b.header;
    let bh = h.hash;
    let us = b.uncles;
    let useq = Seq::new(us.len(), |i: int| us[i].header.hash);
    capture_links(v, b);
    no_link_to_block(v, b);
    assert(!uncle_linked(r2.block_uncles, bh));
    let r3 = eff_remove_own_proposals(r2, bh);
    own_props_restored(v, b);
    assert(r3.block_proposals == v.block_proposals + uncle_prop_rows(us));
    assert(r3.block_uncles == v.block_uncles + link_rows(bh, us));
    let capu = captured_uncles(r3, bh);
    assert(capu == useq);
    let r4 = eff_del_block_uncles(r3, bh);
    assert(r4.block_uncles == v.block_uncles);
    uncles_unreferenced(v, b);
    assert(forall|j: int| 0 <= j < capu.len() ==> !uncle_linked(r4.block_uncles, #[trigger] capu[j]))
        by {
        assert forall|j: int| 0 <= j < capu.len() implies !uncle_linked(
            r4.block_uncles,
            #[trigger] capu[j],
        ) by {
            assert(capu[j] == us[j].header.hash);
            assert(!uncle_linked(v.block_uncles, us[j].header.hash));
        }
    }
    assert(forall|j: int| 0 <= j < capu.len() ==> !has_header(r4.block_headers, #[trigger] capu[j]))
        by {
        assert forall|j: int| 0 <= j < capu.len() implies !has_header(
            r4.block_headers,
            #[trigger] capu[j],
        ) by {
            assert(capu[j] == us[j].header.hash);
            assert(r4.block_headers == v.block_headers.push(h));
            assert(!has_header(v.block_headers.push(b.header), us[j].header.hash));
        }
    }
    rem_uncles_tables(r4, capu);
    frame_remove_uncles(r4, capu);
    let r5 = eff_remove_uncles(r4, capu);
    restore_uncle_tables(v, b, capu);
    assert(r5.uncle_headers == v.uncle_headers);
    assert(r5.block_proposals == v.block_proposals);
    let r6 = eff_del_block_header(r5, bh);
    header_restored(v, b);
    assert(r6.block_headers == v.block_headers);
}

/// Round trip: inserting a fresh block into a well-formed store and removing
/// its height right away returns every chain-structure table to its prior
/// state, row for row. (The cell tables are covered pointwise by the
/// restoration and shared-data laws.)
#[verifier::rlimit(100)]
#[verifier::spinoff_prover]
pub proof fn lemma_round_trip_chain_tables(v: StoreView, b: BlockRec)
    requires
        ref_inv(v),
        fresh_block(v, b),
    ensures
        ({
            let w = eff_remove_block(eff_insert_block(v, b), b.header.number);
            &&& w.schema == v.schema
            &&& w.block_headers == v.block_headers
            &&& w.block_uncles == v.block_uncles
            &&& w.uncle_headers == v.uncle_headers
            &&& w.block_proposals == v.block_proposals
            &&& w.block_transactions == v.block_transactions
            &&& w.transactions == v.transactions
            &&& w.tx_cell_deps == v.tx_cell_deps
            &&& w.tx_header_deps == v.tx_header_deps
            &&& w.tx_witnesses == v.tx_witnesses
        }),
{
    let h = b.header;
    let bh = h.hash;
    insert_block_tables(v, b);
    let w1 = eff_insert_block(v, b);
    block_found(v, b);
    assert(block_hash_at(w1, h.number) == Option::Some(bh));
    remove_tx_phase(v, b, w1);
    let r2 = eff_remove_txs(eff_del_block_txs(w1, bh), captured_txs(w1, bh));
    remove_uncle_phase(v, b, r2);
    assert(eff_remove_block(w1, h.number) == eff_del_block_header(
        eff_remove_uncles(
            eff_del_block_uncles(eff_remove_own_proposals(r2, bh), bh),
            captured_uncles(eff_remove_own_proposals(r2, bh), bh),
        ),
        bh,
    ));
    crate::effects::lemma_schema_insert_block(v, b);
}

} // verus!
