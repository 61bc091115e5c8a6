//! The persistence engine: an in-memory store over the relational schema.
//!
//! Each method mirrors one statement batch of the schema and carries an exact
//! contract over [`StoreView`]: what rows it adds, updates or deletes, and in
//! what order. `insert_block` and `remove_block` apply their whole batch as
//! one atomic unit: they either perform the complete documented effect or,
//! on a rejected block, change nothing.

use vstd::prelude::*;

use crate::effects::{
    block_hash_at, captured_txs, captured_uncles, eff_apply_tx, eff_apply_txs,
    eff_consume_cells, eff_consume_one, eff_del_block_header, eff_del_block_txs,
    eff_del_block_uncles, eff_gc_cells, eff_gc_data, eff_gc_script, eff_insert_block,
    eff_insert_block_header, eff_insert_block_tx, eff_insert_block_txs, eff_insert_block_uncle,
    eff_insert_block_uncles, eff_insert_cell, eff_insert_cell_deps, eff_insert_cells,
    eff_insert_data, eff_insert_header_deps, eff_insert_proposal, eff_insert_proposals,
    eff_insert_script, eff_insert_transaction, eff_insert_uncle_header, eff_insert_uncles,
    eff_insert_witnesses, eff_remove_block, eff_remove_block_proposals, eff_remove_cells,
    eff_remove_transaction, eff_remove_txs, eff_remove_uncle_header, eff_remove_uncles,
    eff_restore_cells,
};
use crate::error::Error;
use crate::hashing::{data_hash, data_hash_of, script_hash, script_hash_of};
use crate::rows::{
    data_referenced, first_with_number, has_block_tx, has_cell, has_cell_dep, has_data, has_header,
    has_header_dep, has_number, has_proposal, has_script, has_tx, has_uncle_link, has_witness,
    parent_present, script_referenced, tip_of, uncle_linked, BlockTxRow, BlockUncleRow, CellDepRow,
    CellRow, Consumption, DataRec, DataRow, HeaderDepRow, ProposalRow, ScriptRow, StoreView,
    TxRow, WitnessRow,
};
use crate::types::{Block, CellInput, CellOutput, Hash32, Header, ShortId, Transaction, Uncle};

verus! {

/// The store: the schema-existence flag and one vector per table.
pub struct Storage {
    schema: bool,
    block_headers: Vec<Header>,
    block_uncles: Vec<BlockUncleRow>,
    uncle_headers: Vec<Header>,
    block_proposals: Vec<ProposalRow>,
    block_transactions: Vec<BlockTxRow>,
    transactions: Vec<TxRow>,
    tx_cell_deps: Vec<CellDepRow>,
    tx_header_deps: Vec<HeaderDepRow>,
    tx_witnesses: Vec<WitnessRow>,
    cells: Vec<CellRow>,
    cells_data: Vec<DataRow>,
    scripts: Vec<ScriptRow>,
}

impl View for Storage {
    type V = StoreView;

    closed spec fn view(&self) -> StoreView {
        StoreView {
            schema: self.schema,
            block_headers: self.block_headers@,
            block_uncles: self.block_uncles@,
            uncle_headers: self.uncle_headers@,
            block_proposals: self.block_proposals@,
            block_transactions: self.block_transactions@,
            transactions: self.transactions@,
            tx_cell_deps: self.tx_cell_deps@,
            tx_header_deps: self.tx_header_deps@,
            tx_witnesses: self.tx_witnesses@.map_values(|r: WitnessRow| r.rec()),
            cells: self.cells@,
            cells_data: self.cells_data@.map_values(|r: DataRow| r.rec()),
            scripts: self.scripts@.map_values(|r: ScriptRow| r.rec()),
        }
    }
}

/// Byte-for-byte copy of a blob.
fn copy_bytes(v: &Vec<u8>) -> (r: Vec<u8>)
    ensures
        r@ == v@,
{
    let mut out: Vec<u8> = Vec::new();
    let n = v.len();
    let mut i: usize = 0;
    while i < n
        invariant
            i <= n,
            n == v@.len(),
            out@ == v@.subrange(0, i as int),
        decreases n - i,
    {
        out.push(v[i]);
        proof {
            assert(out@ =~= v@.subrange(0, i as int + 1));
        }
        i = i + 1;
    }
    proof {
        assert(out@ =~= v@);
    }
    out
}

fn find_header(rows: &Vec<Header>, h: Hash32) -> (r: bool)
    ensures
        r == has_header(rows@, h),
{
    let n = rows.len();
    let mut i: usize = 0;
    while i < n
        invariant
            i <= n,
            n == rows@.len(),
            forall|k: int| 0 <= k < i ==> (#[trigger] rows@[k]).hash != h,
        decreases n - i,
    {
        if rows[i].hash == h {
            proof {
                assert(rows@[i as int].hash == h);
            }
            return true;
        }
        i = i + 1;
    }
    false
}

fn find_number(rows: &Vec<Header>, n: u64) -> (r: bool)
    ensures
        r == has_number(rows@, n),
{
    let m = rows.len();
    let mut i: usize = 0;
    while i < m
        invariant
            i <= m,
            m == rows@.len(),
            forall|k: int| 0 <= k < i ==> (#[trigger] rows@[k]).number != n,
        decreases m - i,
    {
        if rows[i].number == n {
            proof {
                assert(rows@[i as int].number == n);
            }
            return true;
        }
        i = i + 1;
    }
    false
}

pub proof fn lemma_first_with_number_skip(s: Seq<Header>, n: u64, i: int)
    requires
        0 <= i <= s.len(),
        forall|k: int| 0 <= k < i ==> (#[trigger] s[k]).number != n,
    ensures
        first_with_number(s, n) == first_with_number(s.subrange(i, s.len() as int), n),
    decreases i,
{
    if i == 0 {
        assert(s.subrange(0, s.len() as int) =~= s);
    } else {
        assert(s[0].number != n);
        assert(s.drop_first() =~= s.subrange(1, s.len() as int));
        lemma_first_with_number_skip(s.drop_first(), n, i - 1);
        assert(s.drop_first().subrange(i - 1, s.drop_first().len() as int) =~= s.subrange(
            i,
            s.len() as int,
        ));
    }
}

fn find_uncle_link(rows: &Vec<BlockUncleRow>, b: Hash32, u: Hash32) -> (r: bool)
    ensures
        r == has_uncle_link(rows@, b, u),
{
    let n = rows.len();
    let mut i: usize = 0;
    while i < n
        invariant
            i <= n,
            n == rows@.len(),
            forall|k: int|
                0 <= k < i ==> !((#[trigger] rows@[k]).block_hash == b && rows@[k].uncle_hash
                    == u),
        decreases n - i,
    {
        if rows[i].block_hash == b && rows[i].uncle_hash == u {
            proof {
                assert(rows@[i as int].block_hash == b && rows@[i as int].uncle_hash == u);
            }
            return true;
        }
        i = i + 1;
    }
    false
}

fn find_uncle_linked(rows: &Vec<BlockUncleRow>, u: Hash32) -> (r: bool)
    ensures
        r == uncle_linked(rows@, u),
{
    let n = rows.len();
    let mut i: usize = 0;
    while i < n
        invariant
            i <= n,
            n == rows@.len(),
            forall|k: int| 0 <= k < i ==> (#[trigger] rows@[k]).uncle_hash != u,
        decreases n - i,
    {
        if rows[i].uncle_hash == u {
            proof {
                assert(rows@[i as int].uncle_hash == u);
            }
            return true;
        }
        i = i + 1;
    }
    false
}

fn find_proposal(rows: &Vec<ProposalRow>, c: Hash32, sid: ShortId) -> (r: bool)
    ensures
        r == has_proposal(rows@, c, sid),
{
    let n = rows.len();
    let mut i: usize = 0;
    while i < n
        invariant
            i <= n,
            n == rows@.len(),
            forall|k: int|
                0 <= k < i ==> !((#[trigger] rows@[k]).block_hash == c && rows@[k].short_id
                    == sid),
        decreases n - i,
    {
        if rows[i].block_hash == c && rows[i].short_id == sid {
            proof {
                assert(rows@[i as int].block_hash == c && rows@[i as int].short_id == sid);
            }
            return true;
        }
        i = i + 1;
    }
    false
}

fn find_block_tx(rows: &Vec<BlockTxRow>, b: Hash32, t: Hash32) -> (r: bool)
    ensures
        r == has_block_tx(rows@, b, t),
{
    let n = rows.len();
    let mut i: usize = 0;
    while i < n
        invariant
            i <= n,
            n == rows@.len(),
            forall|k: int|
                0 <= k < i ==> !((#[trigger] rows@[k]).block_hash == b && rows@[k].tx_hash == t),
        decreases n - i,
    {
        if rows[i].block_hash == b && rows[i].tx_hash == t {
            proof {
                assert(rows@[i as int].block_hash == b && rows@[i as int].tx_hash == t);
            }
            return true;
        }
        i = i + 1;
    }
    false
}

fn find_tx(rows: &Vec<TxRow>, h: Hash32) -> (r: bool)
    ensures
        r == has_tx(rows@, h),
{
    let n = rows.len();
    let mut i: usize = 0;
    while i < n
        invariant
            i <= n,
            n == rows@.len(),
            forall|k: int| 0 <= k < i ==> (#[trigger] rows@[k]).hash != h,
        decreases n - i,
    {
        if rows[i].hash == h {
            proof {
                assert(rows@[i as int].hash == h);
            }
            return true;
        }
        i = i + 1;
    }
    false
}

fn find_cell_dep(rows: &Vec<CellDepRow>, rt: Hash32, ri: usize, di: usize) -> (r: bool)
    ensures
        r == has_cell_dep(rows@, rt, ri, di),
{
    let n = rows.len();
    let mut i: usize = 0;
    while i < n
        invariant
            i <= n,
            n == rows@.len(),
            forall|k: int|
                0 <= k < i ==> !((#[trigger] rows@[k]).ref_tx_hash == rt && rows@[k].ref_index
                    == ri && rows@[k].ref_dep_index == di),
        decreases n - i,
    {
        if rows[i].ref_tx_hash == rt && rows[i].ref_index == ri && rows[i].ref_dep_index == di {
            proof {
                assert(rows@[i as int].ref_tx_hash == rt && rows@[i as int].ref_index == ri
                    && rows@[i as int].ref_dep_index == di);
            }
            return true;
        }
        i = i + 1;
    }
    false
}

fn find_header_dep(rows: &Vec<HeaderDepRow>, rt: Hash32, ri: usize, di: usize) -> (r: bool)
    ensures
        r == has_header_dep(rows@, rt, ri, di),
{
    let n = rows.len();
    let mut i: usize = 0;
    while i < n
        invariant
            i <= n,
            n == rows@.len(),
            forall|k: int|
                0 <= k < i ==> !((#[trigger] rows@[k]).ref_tx_hash == rt && rows@[k].ref_index
                    == ri && rows@[k].ref_dep_index == di),
        decreases n - i,
    {
        if rows[i].ref_tx_hash == rt && rows[i].ref_index == ri && rows[i].ref_dep_index == di {
            proof {
                assert(rows@[i as int].ref_tx_hash == rt && rows@[i as int].ref_index == ri
                    && rows@[i as int].ref_dep_index == di);
            }
            return true;
        }
        i = i + 1;
    }
    false
}

fn find_witness(rows: &Vec<WitnessRow>, rt: Hash32, ri: usize, di: usize) -> (r: bool)
    ensures
        r == has_witness(rows@.map_values(|x: WitnessRow| x.rec()), rt, ri, di),
{
    let ghost view = rows@.map_values(|x: WitnessRow| x.rec());
    let n = rows.len();
    let mut i: usize = 0;
    while i < n
        invariant
            i <= n,
            n == rows@.len(),
            view == rows@.map_values(|x: WitnessRow| x.rec()),
            forall|k: int|
                0 <= k < i ==> !((#[trigger] view[k]).ref_tx_hash == rt && view[k].ref_index == ri
                    && view[k].ref_dep_index == di),
        decreases n - i,
    {
        if rows[i].ref_tx_hash == rt && rows[i].ref_index == ri && rows[i].ref_dep_index == di {
            proof {
                assert(view[i as int].ref_tx_hash == rt && view[i as int].ref_index == ri
                    && view[i as int].ref_dep_index == di);
            }
            return true;
        }
        proof {
            assert(view[i as int] == rows@[i as int].rec());
        }
        i = i + 1;
    }
    false
}

fn find_cell(rows: &Vec<CellRow>, t: Hash32, idx: usize) -> (r: bool)
    ensures
        r == has_cell(rows@, t, idx),
{
    let n = rows.len();
    let mut i: usize = 0;
    while i < n
        invariant
            i <= n,
            n == rows@.len(),
            forall|k: int|
                0 <= k < i ==> !((#[trigger] rows@[k]).tx_hash == t && rows@[k].index == idx),
        decreases n - i,
    {
        if rows[i].tx_hash == t && rows[i].index == idx {
            proof {
                assert(rows@[i as int].tx_hash == t && rows@[i as int].index == idx);
            }
            return true;
        }
        i = i + 1;
    }
    false
}

fn find_data(rows: &Vec<DataRow>, h: Hash32) -> (r: bool)
    ensures
        r == has_data(rows@.map_values(|x: DataRow| x.rec()), h),
{
    let ghost view = rows@.map_values(|x: DataRow| x.rec());
    let n = rows.len();
    let mut i: usize = 0;
    while i < n
        invariant
            i <= n,
            n == rows@.len(),
            view == rows@.map_values(|x: DataRow| x.rec()),
            forall|k: int| 0 <= k < i ==> (#[trigger] view[k]).hash != h,
        decreases n - i,
    {
        if rows[i].hash == h {
            proof {
                assert(view[i as int].hash == h);
            }
            return true;
        }
        proof {
            assert(view[i as int] == rows@[i as int].rec());
        }
        i = i + 1;
    }
    false
}

fn find_script(rows: &Vec<ScriptRow>, h: Hash32) -> (r: bool)
    ensures
        r == has_script(rows@.map_values(|x: ScriptRow| x.rec()), h),
{
    let ghost view = rows@.map_values(|x: ScriptRow| x.rec());
    let n = rows.len();
    let mut i: usize = 0;
    while i < n
        invariant
            i <= n,
            n == rows@.len(),
            view == rows@.map_values(|x: ScriptRow| x.rec()),
            forall|k: int| 0 <= k < i ==> (#[trigger] view[k]).hash != h,
        decreases n - i,
    {
        if rows[i].hash == h {
            proof {
                assert(view[i as int].hash == h);
            }
            return true;
        }
        proof {
            assert(view[i as int] == rows@[i as int].rec());
        }
        i = i + 1;
    }
    false
}

fn find_data_referenced(rows: &Vec<CellRow>, h: Hash32) -> (r: bool)
    ensures
        r == data_referenced(rows@, h),
{
    let n = rows.len();
    let mut i: usize = 0;
    while i < n
        invariant
            i <= n,
            n == rows@.len(),
            forall|k: int| 0 <= k < i ==> (#[trigger] rows@[k]).data_hash != h,
        decreases n - i,
    {
        if rows[i].data_hash == h {
            proof {
                assert(rows@[i as int].data_hash == h);
            }
            return true;
        }
        i = i + 1;
    }
    false
}

fn find_script_referenced(rows: &Vec<CellRow>, h: Hash32) -> (r: bool)
    ensures
        r == script_referenced(rows@, h),
{
    let n = rows.len();
    let mut i: usize = 0;
    while i < n
        invariant
            i <= n,
            n == rows@.len(),
            forall|k: int|
                0 <= k < i ==> !((#[trigger] rows@[k]).lock_hash == h || rows@[k].type_hash
                    == Some(h)),
        decreases n - i,
    {
        let is_type = match rows[i].type_hash {
            Some(t) => t == h,
            None => false,
        };
        if rows[i].lock_hash == h || is_type {
            proof {
                assert(rows@[i as int].lock_hash == h || rows@[i as int].type_hash == Some(h));
            }
            return true;
        }
        i = i + 1;
    }
    false
}

impl Storage {
    /// A fresh store: no schema yet, nothing persisted.
    pub fn new() -> (s: Storage)
        ensures
            s@ == StoreView::init(),
    {
        let s = Storage {
            schema: false,
            block_headers: Vec::new(),
            block_uncles: Vec::new(),
            uncle_headers: Vec::new(),
            block_proposals: Vec::new(),
            block_transactions: Vec::new(),
            transactions: Vec::new(),
            tx_cell_deps: Vec::new(),
            tx_header_deps: Vec::new(),
            tx_witnesses: Vec::new(),
            cells: Vec::new(),
            cells_data: Vec::new(),
            scripts: Vec::new(),
        };
        proof {
            assert(s@ =~= StoreView::init());
        }
        s
    }

    /// True before the schema has been created: the first run ever.
    pub fn is_first_run(&self) -> (r: bool)
        ensures
            r == !self@.schema,
    {
        !self.schema
    }

    /// Creates the full schema if absent; idempotent.
    pub fn create_tables(&mut self)
        ensures
            final(self)@ == if old(self)@.schema {
                old(self)@
            } else {
                StoreView::empty_schema()
            },
    {
        if !self.schema {
            self.schema = true;
            self.block_headers = Vec::new();
            self.block_uncles = Vec::new();
            self.uncle_headers = Vec::new();
            self.block_proposals = Vec::new();
            self.block_transactions = Vec::new();
            self.transactions = Vec::new();
            self.tx_cell_deps = Vec::new();
            self.tx_header_deps = Vec::new();
            self.tx_witnesses = Vec::new();
            self.cells = Vec::new();
            self.cells_data = Vec::new();
            self.scripts = Vec::new();
            proof {
                assert(self@ =~= StoreView::empty_schema());
            }
        }
    }

    /// Drops the entire schema: a full reset.
    pub fn destory(&mut self)
        ensures
            final(self)@ == StoreView::init(),
    {
        self.schema = false;
        self.block_headers = Vec::new();
        self.block_uncles = Vec::new();
        self.uncle_headers = Vec::new();
        self.block_proposals = Vec::new();
        self.block_transactions = Vec::new();
        self.transactions = Vec::new();
        self.tx_cell_deps = Vec::new();
        self.tx_header_deps = Vec::new();
        self.tx_witnesses = Vec::new();
        self.cells = Vec::new();
        self.cells_data = Vec::new();
        self.scripts = Vec::new();
        proof {
            assert(self@ =~= StoreView::init());
        }
    }

    /// The highest stored block height, or `None` while no block is stored.
    pub fn check_current_block(&self) -> (r: Option<u64>)
        ensures
            r == tip_of(self@.block_headers),
    {
        let n = self.block_headers.len();
        let mut best: Option<u64> = None;
        let mut i: usize = 0;
        proof {
            assert(self@.block_headers.take(0) =~= Seq::<Header>::empty());
        }
        while i < n
            invariant
                i <= n,
                n == self.block_headers@.len(),
                best == tip_of(self@.block_headers.take(i as int)),
            decreases n - i,
        {
            let num = self.block_headers[i].number;
            let new_best: Option<u64> = match best {
                None => Some(num),
                Some(m) => if num > m {
                    Some(num)
                } else {
                    Some(m)
                },
            };
            proof {
                let s = self@.block_headers;
                assert(s.take(i as int + 1).drop_last() =~= s.take(i as int));
                assert(s.take(i as int + 1).last() == s[i as int]);
            }
            best = new_best;
            i = i + 1;
        }
        proof {
            assert(self@.block_headers.take(n as int) =~= self@.block_headers);
        }
        best
    }

    /// Creates the schema on the first run, then reports the highest stored
    /// block height, or `None` if no block is stored yet.
    pub fn initialize(&mut self) -> (r: Option<u64>)
        ensures
            final(self)@ == if old(self)@.schema {
                old(self)@
            } else {
                StoreView::empty_schema()
            },
            r == tip_of(final(self)@.block_headers),
    {
        if self.is_first_run() {
            self.create_tables();
        }
        self.check_current_block()
    }

    /// The hash of the stored block at this height, if any.
    pub fn block_hash(&self, number: u64) -> (r: Option<Hash32>)
        ensures
            r == block_hash_at(self@, number),
    {
        let n = self.block_headers.len();
        let mut i: usize = 0;
        while i < n
            invariant
                i <= n,
                n == self.block_headers@.len(),
                forall|k: int|
                    0 <= k < i ==> (#[trigger] self@.block_headers[k]).number != number,
            decreases n - i,
        {
            if self.block_headers[i].number == number {
                proof {
                    let s = self@.block_headers;
                    lemma_first_with_number_skip(s, number, i as int);
                    assert(s.subrange(i as int, s.len() as int).first() == s[i as int]);
                }
                return Some(self.block_headers[i].hash);
            }
            i = i + 1;
        }
        proof {
            let s = self@.block_headers;
            lemma_first_with_number_skip(s, number, n as int);
            assert(s.subrange(n as int, s.len() as int).len() == 0);
        }
        None
    }

    /// True iff a stored block header carries height `header.number - 1` and
    /// hash `header.parent_hash`. Genesis (height 0) never has a parent.
    pub fn verify_block(&self, header: &Header) -> (r: bool)
        ensures
            r == parent_present(self@.block_headers, *header),
    {
        if header.number == 0 {
            return false;
        }
        let want = header.number - 1;
        let n = self.block_headers.len();
        let mut i: usize = 0;
        while i < n
            invariant
                i <= n,
                n == self.block_headers@.len(),
                want == header.number - 1,
                header.number > 0,
                forall|k: int|
                    0 <= k < i ==> !((#[trigger] self@.block_headers[k]).number == want
                        && self@.block_headers[k].hash == header.parent_hash),
            decreases n - i,
        {
            if self.block_headers[i].number == want && self.block_headers[i].hash
                == header.parent_hash {
                proof {
                    assert(self@.block_headers[i as int].number == header.number - 1
                        && self@.block_headers[i as int].hash == header.parent_hash);
                }
                return true;
            }
            i = i + 1;
        }
        false
    }

    fn insert_block_header(&mut self, h: &Header)
        ensures
            final(self)@ == eff_insert_block_header(old(self)@, *h),
    {
        if !find_header(&self.block_headers, h.hash) && !find_number(&self.block_headers, h.number)
        {
            self.block_headers.push(*h);
            proof {
                assert(self@ =~= (StoreView {
                    block_headers: old(self)@.block_headers.push(*h),
                    ..old(self)@
                }));
            }
        }
    }

    fn remove_block_header(&mut self, h: Hash32)
        ensures
            final(self)@ == eff_del_block_header(old(self)@, h),
    {
        let ghost v0 = self@;
        let n = self.block_headers.len();
        let mut out: Vec<Header> = Vec::new();
        let mut i: usize = 0;
        proof {
            assert(v0.block_headers.take(0).filter(|r: Header| r.hash != h) =~= out@) by {
                reveal(Seq::filter);
                assert(v0.block_headers.take(0) =~= Seq::<Header>::empty());
            }
        }
        while i < n
            invariant
                i <= n,
                n == self.block_headers@.len(),
                self@ == v0,
                out@ == v0.block_headers.take(i as int).filter(|r: Header| r.hash != h),
            decreases n - i,
        {
            let row = self.block_headers[i];
            proof {
                let s = v0.block_headers;
                reveal(Seq::filter);
                assert(s.take(i as int + 1).drop_last() =~= s.take(i as int));
                assert(s.take(i as int + 1).last() == s[i as int]);
            }
            if !(row.hash == h) {
                out.push(row);
            }
            i = i + 1;
        }
        proof {
            assert(v0.block_headers.take(n as int) =~= v0.block_headers);
        }
        self.block_headers = out;
        proof {
            assert(self@ =~= eff_del_block_header(v0, h));
        }
    }

    fn insert_uncle_header(&mut self, h: &Header)
        ensures
            final(self)@ == eff_insert_uncle_header(old(self)@, *h),
    {
        if !find_header(&self.uncle_headers, h.hash) {
            self.uncle_headers.push(*h);
            proof {
                assert(self@ =~= (StoreView {
                    uncle_headers: old(self)@.uncle_headers.push(*h),
                    ..old(self)@
                }));
            }
        }
    }

    fn remove_uncle_header(&mut self, u: Hash32)
        ensures
            final(self)@ == eff_remove_uncle_header(old(self)@, u),
    {
        if find_uncle_linked(&self.block_uncles, u) {
            return ;
        }
        let ghost v0 = self@;
        let n = self.uncle_headers.len();
        let mut out: Vec<Header> = Vec::new();
        let mut i: usize = 0;
        proof {
            assert(v0.uncle_headers.take(0).filter(|r: Header| r.hash != u) =~= out@) by {
                reveal(Seq::filter);
                assert(v0.uncle_headers.take(0) =~= Seq::<Header>::empty());
            }
        }
        while i < n
            invariant
                i <= n,
                n == self.uncle_headers@.len(),
                self@ == v0,
                out@ == v0.uncle_headers.take(i as int).filter(|r: Header| r.hash != u),
            decreases n - i,
        {
            let row = self.uncle_headers[i];
            proof {
                let s = v0.uncle_headers;
                reveal(Seq::filter);
                assert(s.take(i as int + 1).drop_last() =~= s.take(i as int));
                assert(s.take(i as int + 1).last() == s[i as int]);
            }
            if !(row.hash == u) {
                out.push(row);
            }
            i = i + 1;
        }
        proof {
            assert(v0.uncle_headers.take(n as int) =~= v0.uncle_headers);
        }
        self.uncle_headers = out;
        proof {
            assert(self@ =~= eff_remove_uncle_header(v0, u));
        }
    }

    fn insert_block_uncle(&mut self, b: Hash32, u: Hash32, idx: usize)
        ensures
            final(self)@ == eff_insert_block_uncle(old(self)@, b, u, idx),
    {
        if !find_uncle_link(&self.block_uncles, b, u) {
            self.block_uncles.push(BlockUncleRow { block_hash: b, uncle_hash: u, index: idx });
            proof {
                assert(self@ =~= (StoreView {
                    block_uncles: old(self)@.block_uncles.push(
                        BlockUncleRow { block_hash: b, uncle_hash: u, index: idx },
                    ),
                    ..old(self)@
                }));
            }
        }
    }

    fn insert_block_uncles(&mut self, b: Hash32, uncles: &Vec<Uncle>)
        ensures
            final(self)@ == eff_insert_block_uncles(
                old(self)@,
                b,
                uncles@.map_values(|u: Uncle| u.rec()),
            ),
    {
        let ghost v0 = self@;
        let ghost us = uncles@.map_values(|u: Uncle| u.rec());
        let n = uncles.len();
        let mut i: usize = 0;
        proof {
            assert(us.take(0) =~= Seq::<crate::types::UncleRec>::empty());
        }
        while i < n
            invariant
                i <= n,
                n == uncles@.len(),
                us == uncles@.map_values(|u: Uncle| u.rec()),
                self@ == eff_insert_block_uncles(v0, b, us.take(i as int)),
            decreases n - i,
        {
            self.insert_block_uncle(b, uncles[i].header.hash, i);
            proof {
                assert(us.take(i as int + 1).drop_last() =~= us.take(i as int));
                assert(us.take(i as int + 1).last() == us[i as int]);
                assert(us[i as int] == uncles@[i as int].rec());
            }
            i = i + 1;
        }
        proof {
            assert(us.take(n as int) =~= us);
        }
    }

    fn insert_block_proposal(&mut self, c: Hash32, sid: ShortId, idx: usize)
        ensures
            final(self)@ == eff_insert_proposal(old(self)@, c, sid, idx),
    {
        if !find_proposal(&self.block_proposals, c, sid) {
            self.block_proposals.push(ProposalRow { block_hash: c, short_id: sid, index: idx });
            proof {
                assert(self@ =~= (StoreView {
                    block_proposals: old(self)@.block_proposals.push(
                        ProposalRow { block_hash: c, short_id: sid, index: idx },
                    ),
                    ..old(self)@
                }));
            }
        }
    }

    fn insert_block_proposals(&mut self, c: Hash32, sids: &Vec<ShortId>)
        ensures
            final(self)@ == eff_insert_proposals(old(self)@, c, sids@),
    {
        let ghost v0 = self@;
        let n = sids.len();
        let mut i: usize = 0;
        proof {
            assert(sids@.take(0) =~= Seq::<ShortId>::empty());
        }
        while i < n
            invariant
                i <= n,
                n == sids@.len(),
                self@ == eff_insert_proposals(v0, c, sids@.take(i as int)),
            decreases n - i,
        {
            self.insert_block_proposal(c, sids[i], i);
            proof {
                assert(sids@.take(i as int + 1).drop_last() =~= sids@.take(i as int));
                assert(sids@.take(i as int + 1).last() == sids@[i as int]);
            }
            i = i + 1;
        }
        proof {
            assert(sids@.take(n as int) =~= sids@);
        }
    }

    fn remove_block_proposals(&mut self, c: Hash32)
        ensures
            final(self)@ == eff_remove_block_proposals(old(self)@, c),
    {
        if find_header(&self.block_headers, c) || find_uncle_linked(&self.block_uncles, c) {
            return ;
        }
        let ghost v0 = self@;
        let n = self.block_proposals.len();
        let mut out: Vec<ProposalRow> = Vec::new();
        let mut i: usize = 0;
        proof {
            assert(v0.block_proposals.take(0).filter(|r: ProposalRow| r.block_hash != c) =~= out@)
                by {
                reveal(Seq::filter);
                assert(v0.block_proposals.take(0) =~= Seq::<ProposalRow>::empty());
            }
        }
        while i < n
            invariant
                i <= n,
                n == self.block_proposals@.len(),
                self@ == v0,
                out@ == v0.block_proposals.take(i as int).filter(
                    |r: ProposalRow| r.block_hash != c,
                ),
            decreases n - i,
        {
            let row = self.block_proposals[i];
            proof {
                let s = v0.block_proposals;
                reveal(Seq::filter);
                assert(s.take(i as int + 1).drop_last() =~= s.take(i as int));
                assert(s.take(i as int + 1).last() == s[i as int]);
            }
            if !(row.block_hash == c) {
                out.push(row);
            }
            i = i + 1;
        }
        proof {
            assert(v0.block_proposals.take(n as int) =~= v0.block_proposals);
        }
        self.block_proposals = out;
        proof {
            assert(self@ =~= eff_remove_block_proposals(v0, c));
        }
    }

    fn remove_own_proposals(&mut self, c: Hash32)
        ensures
            final(self)@ == crate::effects::eff_remove_own_proposals(old(self)@, c),
    {
        if find_uncle_linked(&self.block_uncles, c) {
            return ;
        }
        let ghost v0 = self@;
        let n = self.block_proposals.len();
        let mut out: Vec<ProposalRow> = Vec::new();
        let mut i: usize = 0;
        proof {
            assert(v0.block_proposals.take(0).filter(|r: ProposalRow| r.block_hash != c) =~= out@)
                by {
                reveal(Seq::filter);
                assert(v0.block_proposals.take(0) =~= Seq::<ProposalRow>::empty());
            }
        }
        while i < n
            invariant
                i <= n,
                n == self.block_proposals@.len(),
                self@ == v0,
                out@ == v0.block_proposals.take(i as int).filter(
                    |r: ProposalRow| r.block_hash != c,
                ),
            decreases n - i,
        {
            let row = self.block_proposals[i];
            proof {
                let s = v0.block_proposals;
                reveal(Seq::filter);
                assert(s.take(i as int + 1).drop_last() =~= s.take(i as int));
                assert(s.take(i as int + 1).last() == s[i as int]);
            }
            if !(row.block_hash == c) {
                out.push(row);
            }
            i = i + 1;
        }
        proof {
            assert(v0.block_proposals.take(n as int) =~= v0.block_proposals);
        }
        self.block_proposals = out;
        proof {
            assert(self@ =~= crate::effects::eff_remove_own_proposals(v0, c));
        }
    }

    fn remove_block_uncles(&mut self, b: Hash32) -> (captured: Vec<Hash32>)
        ensures
            final(self)@ == eff_del_block_uncles(old(self)@, b),
            captured@ == captured_uncles(old(self)@, b),
    {
        let ghost v0 = self@;
        let n = self.block_uncles.len();
        let mut out: Vec<BlockUncleRow> = Vec::new();
        let mut cap: Vec<Hash32> = Vec::new();
        let mut i: usize = 0;
        proof {
            reveal(Seq::filter);
            assert(v0.block_uncles.take(0) =~= Seq::<BlockUncleRow>::empty());
            assert(v0.block_uncles.take(0).filter(|r: BlockUncleRow| r.block_hash != b) =~= out@);
            assert(v0.block_uncles.take(0).filter(|r: BlockUncleRow| r.block_hash == b).map_values(
                |r: BlockUncleRow| r.uncle_hash,
            ) =~= cap@);
        }
        while i < n
            invariant
                i <= n,
                n == self.block_uncles@.len(),
                self@ == v0,
                out@ == v0.block_uncles.take(i as int).filter(
                    |r: BlockUncleRow| r.block_hash != b,
                ),
                cap@ == v0.block_uncles.take(i as int).filter(
                    |r: BlockUncleRow| r.block_hash == b,
                ).map_values(|r: BlockUncleRow| r.uncle_hash),
            decreases n - i,
        {
            let row = self.block_uncles[i];
            proof {
                let s = v0.block_uncles;
                reveal(Seq::filter);
                assert(s.take(i as int + 1).drop_last() =~= s.take(i as int));
                assert(s.take(i as int + 1).last() == s[i as int]);
            }
            if row.block_hash == b {
                cap.push(row.uncle_hash);
                proof {
                    let s = v0.block_uncles;
                    assert(s.take(i as int + 1).filter(|r: BlockUncleRow| r.block_hash == b)
                        =~= s.take(i as int).filter(|r: BlockUncleRow| r.block_hash == b).push(
                        s[i as int],
                    ));
                    assert(s.take(i as int + 1).filter(
                        |r: BlockUncleRow| r.block_hash == b,
                    ).map_values(|r: BlockUncleRow| r.uncle_hash) =~= s.take(i as int).filter(
                        |r: BlockUncleRow| r.block_hash == b,
                    ).map_values(|r: BlockUncleRow| r.uncle_hash).push(s[i as int].uncle_hash));
                }
            } else {
                out.push(row);
            }
            i = i + 1;
        }
        proof {
            assert(v0.block_uncles.take(n as int) =~= v0.block_uncles);
        }
        self.block_uncles = out;
        proof {
            assert(self@ =~= eff_del_block_uncles(v0, b));
        }
        cap
    }

    fn insert_block_transaction(&mut self, b: Hash32, t: Hash32, idx: usize)
        ensures
            final(self)@ == eff_insert_block_tx(old(self)@, b, t, idx),
    {
        if !find_block_tx(&self.block_transactions, b, t) {
            self.block_transactions.push(BlockTxRow { block_hash: b, tx_hash: t, index: idx });
            proof {
                assert(self@ =~= (StoreView {
                    block_transactions: old(self)@.block_transactions.push(
                        BlockTxRow { block_hash: b, tx_hash: t, index: idx },
                    ),
                    ..old(self)@
                }));
            }
        }
    }

    fn insert_block_transactions(&mut self, b: Hash32, txs: &Vec<Transaction>)
        ensures
            final(self)@ == eff_insert_block_txs(
                old(self)@,
                b,
                txs@.map_values(|t: Transaction| t.rec()),
            ),
    {
        let ghost v0 = self@;
        let ghost ts = txs@.map_values(|t: Transaction| t.rec());
        let n = txs.len();
        let mut i: usize = 0;
        proof {
            assert(ts.take(0) =~= Seq::<crate::types::TxRec>::empty());
        }
        while i < n
            invariant
                i <= n,
                n == txs@.len(),
                ts == txs@.map_values(|t: Transaction| t.rec()),
                self@ == eff_insert_block_txs(v0, b, ts.take(i as int)),
            decreases n - i,
        {
            self.insert_block_transaction(b, txs[i].hash, i);
            proof {
                assert(ts.take(i as int + 1).drop_last() =~= ts.take(i as int));
                assert(ts.take(i as int + 1).last() == ts[i as int]);
                assert(ts[i as int] == txs@[i as int].rec());
            }
            i = i + 1;
        }
        proof {
            assert(ts.take(n as int) =~= ts);
        }
    }

    fn remove_block_transactions(&mut self, b: Hash32) -> (captured: Vec<Hash32>)
        ensures
            final(self)@ == eff_del_block_txs(old(self)@, b),
            captured@ == captured_txs(old(self)@, b),
    {
        let ghost v0 = self@;
        let n = self.block_transactions.len();
        let mut out: Vec<BlockTxRow> = Vec::new();
        let mut cap: Vec<Hash32> = Vec::new();
        let mut i: usize = 0;
        proof {
            reveal(Seq::filter);
            assert(v0.block_transactions.take(0) =~= Seq::<BlockTxRow>::empty());
            assert(v0.block_transactions.take(0).filter(|r: BlockTxRow| r.block_hash != b)
                =~= out@);
            assert(v0.block_transactions.take(0).filter(
                |r: BlockTxRow| r.block_hash == b,
            ).map_values(|r: BlockTxRow| r.tx_hash) =~= cap@);
        }
        while i < n
            invariant
                i <= n,
                n == self.block_transactions@.len(),
                self@ == v0,
                out@ == v0.block_transactions.take(i as int).filter(
                    |r: BlockTxRow| r.block_hash != b,
                ),
                cap@ == v0.block_transactions.take(i as int).filter(
                    |r: BlockTxRow| r.block_hash == b,
                ).map_values(|r: BlockTxRow| r.tx_hash),
            decreases n - i,
        {
            let row = self.block_transactions[i];
            proof {
                let s = v0.block_transactions;
                reveal(Seq::filter);
                assert(s.take(i as int + 1).drop_last() =~= s.take(i as int));
                assert(s.take(i as int + 1).last() == s[i as int]);
            }
            if row.block_hash == b {
                cap.push(row.tx_hash);
                proof {
                    let s = v0.block_transactions;
                    assert(s.take(i as int + 1).filter(|r: BlockTxRow| r.block_hash == b)
                        =~= s.take(i as int).filter(|r: BlockTxRow| r.block_hash == b).push(
                        s[i as int],
                    ));
                    assert(s.take(i as int + 1).filter(
                        |r: BlockTxRow| r.block_hash == b,
                    ).map_values(|r: BlockTxRow| r.tx_hash) =~= s.take(i as int).filter(
                        |r: BlockTxRow| r.block_hash == b,
                    ).map_values(|r: BlockTxRow| r.tx_hash).push(s[i as int].tx_hash));
                }
            } else {
                out.push(row);
            }
            i = i + 1;
        }
        proof {
            assert(v0.block_transactions.take(n as int) =~= v0.block_transactions);
        }
        self.block_transactions = out;
        proof {
            assert(self@ =~= eff_del_block_txs(v0, b));
        }
        cap
    }

    fn insert_transaction(&mut self, tx: &Transaction, ri: usize)
        ensures
            final(self)@ == eff_insert_transaction(old(self)@, tx.rec(), ri),
    {
        let ghost v0 = self@;
        let t = tx.hash;
        // cell dependency rows
        let n = tx.cell_deps.len();
        let mut i: usize = 0;
        proof {
            assert(tx.cell_deps@.take(0) =~= Seq::<crate::types::CellDep>::empty());
        }
        while i < n
            invariant
                i <= n,
                n == tx.cell_deps@.len(),
                t == tx.hash,
                self@ == eff_insert_cell_deps(v0, tx.hash, ri, tx.cell_deps@.take(i as int)),
            decreases n - i,
        {
            let d = tx.cell_deps[i];
            if !find_cell_dep(&self.tx_cell_deps, t, ri, i) {
                self.tx_cell_deps.push(
                    CellDepRow {
                        ref_tx_hash: t,
                        ref_index: ri,
                        ref_dep_index: i,
                        tx_hash: d.out_point.tx_hash,
                        index: d.out_point.index,
                        dep_type: d.dep_type,
                    },
                );
                proof {
                    assert(self@ =~= (StoreView {
                        tx_cell_deps: eff_insert_cell_deps(
                            v0,
                            tx.hash,
                            ri,
                            tx.cell_deps@.take(i as int),
                        ).tx_cell_deps.push(
                            CellDepRow {
                                ref_tx_hash: t,
                                ref_index: ri,
                                ref_dep_index: i,
                                tx_hash: d.out_point.tx_hash,
                                index: d.out_point.index,
                                dep_type: d.dep_type,
                            },
                        ),
                        ..eff_insert_cell_deps(v0, tx.hash, ri, tx.cell_deps@.take(i as int))
                    }));
                }
            }
            proof {
                assert(tx.cell_deps@.take(i as int + 1).drop_last() =~= tx.cell_deps@.take(
                    i as int,
                ));
                assert(tx.cell_deps@.take(i as int + 1).last() == tx.cell_deps@[i as int]);
            }
            i = i + 1;
        }
        proof {
            assert(tx.cell_deps@.take(n as int) =~= tx.cell_deps@);
        }
        // header dependency rows
        let ghost v1 = self@;
        let hn = tx.header_deps.len();
        let mut j: usize = 0;
        proof {
            assert(tx.header_deps@.take(0) =~= Seq::<Hash32>::empty());
        }
        while j < hn
            invariant
                j <= hn,
                hn == tx.header_deps@.len(),
                t == tx.hash,
                self@ == eff_insert_header_deps(v1, tx.hash, ri, tx.header_deps@.take(j as int)),
            decreases hn - j,
        {
            let hd = tx.header_deps[j];
            if !find_header_dep(&self.tx_header_deps, t, ri, j) {
                self.tx_header_deps.push(
                    HeaderDepRow { ref_tx_hash: t, ref_index: ri, ref_dep_index: j, block_hash: hd },
                );
                proof {
                    let prev = eff_insert_header_deps(
                        v1,
                        tx.hash,
                        ri,
                        tx.header_deps@.take(j as int),
                    );
                    assert(self@ =~= (StoreView {
                        tx_header_deps: prev.tx_header_deps.push(
                            HeaderDepRow {
                                ref_tx_hash: t,
                                ref_index: ri,
                                ref_dep_index: j,
                                block_hash: hd,
                            },
                        ),
                        ..prev
                    }));
                }
            }
            proof {
                assert(tx.header_deps@.take(j as int + 1).drop_last() =~= tx.header_deps@.take(
                    j as int,
                ));
                assert(tx.header_deps@.take(j as int + 1).last() == tx.header_deps@[j as int]);
            }
            j = j + 1;
        }
        proof {
            assert(tx.header_deps@.take(hn as int) =~= tx.header_deps@);
        }
        // witness rows
        let ghost v2 = self@;
        let ghost ws = tx.witnesses@.map_values(|w: Vec<u8>| w@);
        let wn = tx.witnesses.len();
        let mut k: usize = 0;
        proof {
            assert(ws.take(0) =~= Seq::<Seq<u8>>::empty());
        }
        while k < wn
            invariant
                k <= wn,
                wn == tx.witnesses@.len(),
                t == tx.hash,
                ws == tx.witnesses@.map_values(|w: Vec<u8>| w@),
                self@ == eff_insert_witnesses(v2, tx.hash, ri, ws.take(k as int)),
            decreases wn - k,
        {
            if !find_witness(&self.tx_witnesses, t, ri, k) {
                let w = copy_bytes(&tx.witnesses[k]);
                self.tx_witnesses.push(
                    WitnessRow { ref_tx_hash: t, ref_index: ri, ref_dep_index: k, witness: w },
                );
                proof {
                    let prev = eff_insert_witnesses(v2, tx.hash, ri, ws.take(k as int));
                    assert(self@.tx_witnesses =~= prev.tx_witnesses.push(
                        crate::rows::WitnessRec {
                            ref_tx_hash: t,
                            ref_index: ri,
                            ref_dep_index: k,
                            witness: tx.witnesses@[k as int]@,
                        },
                    ));
                    assert(self@ =~= (StoreView {
                        tx_witnesses: prev.tx_witnesses.push(
                            crate::rows::WitnessRec {
                                ref_tx_hash: t,
                                ref_index: ri,
                                ref_dep_index: k,
                                witness: tx.witnesses@[k as int]@,
                            },
                        ),
                        ..prev
                    }));
                }
            }
            proof {
                assert(ws.take(k as int + 1).drop_last() =~= ws.take(k as int));
                assert(ws.take(k as int + 1).last() == ws[k as int]);
                assert(ws[k as int] == tx.witnesses@[k as int]@);
            }
            k = k + 1;
        }
        proof {
            assert(ws.take(wn as int) =~= ws);
        }
        // the transaction row itself
        if !find_tx(&self.transactions, t) {
            let ghost v3 = self@;
            self.transactions.push(TxRow { hash: t, version: tx.version });
            proof {
                assert(self@ =~= (StoreView {
                    transactions: v3.transactions.push(TxRow { hash: t, version: tx.version }),
                    ..v3
                }));
            }
        }
    }

    fn remove_transaction(&mut self, t: Hash32)
        ensures
            final(self)@ == eff_remove_transaction(old(self)@, t),
    {
        let ghost v0 = self@;
        // cell deps
        let n0 = self.tx_cell_deps.len();
        let mut out0: Vec<CellDepRow> = Vec::new();
        let mut i: usize = 0;
        proof {
            reveal(Seq::filter);
            assert(v0.tx_cell_deps.take(0) =~= Seq::<CellDepRow>::empty());
            assert(v0.tx_cell_deps.take(0).filter(|r: CellDepRow| r.ref_tx_hash != t) =~= out0@);
        }
        while i < n0
            invariant
                i <= n0,
                n0 == self.tx_cell_deps@.len(),
                self@ == v0,
                out0@ == v0.tx_cell_deps.take(i as int).filter(
                    |r: CellDepRow| r.ref_tx_hash != t,
                ),
            decreases n0 - i,
        {
            let row = self.tx_cell_deps[i];
            proof {
                let s = v0.tx_cell_deps;
                reveal(Seq::filter);
                assert(s.take(i as int + 1).drop_last() =~= s.take(i as int));
                assert(s.take(i as int + 1).last() == s[i as int]);
            }
            if !(row.ref_tx_hash == t) {
                out0.push(row);
            }
            i = i + 1;
        }
        proof {
            assert(v0.tx_cell_deps.take(n0 as int) =~= v0.tx_cell_deps);
        }
        self.tx_cell_deps = out0;
        // header deps
        let n1 = self.tx_header_deps.len();
        let mut out1: Vec<HeaderDepRow> = Vec::new();
        let mut j: usize = 0;
        proof {
            reveal(Seq::filter);
            assert(v0.tx_header_deps.take(0) =~= Seq::<HeaderDepRow>::empty());
            assert(v0.tx_header_deps.take(0).filter(|r: HeaderDepRow| r.ref_tx_hash != t)
                =~= out1@);
        }
        while j < n1
            invariant
                j <= n1,
                n1 == self.tx_header_deps@.len(),
                self.tx_header_deps@ == v0.tx_header_deps,
                out1@ == v0.tx_header_deps.take(j as int).filter(
                    |r: HeaderDepRow| r.ref_tx_hash != t,
                ),
            decreases n1 - j,
        {
            let row = self.tx_header_deps[j];
            proof {
                let s = v0.tx_header_deps;
                reveal(Seq::filter);
                assert(s.take(j as int + 1).drop_last() =~= s.take(j as int));
                assert(s.take(j as int + 1).last() == s[j as int]);
            }
            if !(row.ref_tx_hash == t) {
                out1.push(row);
            }
            j = j + 1;
        }
        proof {
            assert(v0.tx_header_deps.take(n1 as int) =~= v0.tx_header_deps);
        }
        self.tx_header_deps = out1;
        // witnesses
        let ghost wv = v0.tx_witnesses;
        let n2 = self.tx_witnesses.len();
        let mut out2: Vec<WitnessRow> = Vec::new();
        let mut k: usize = 0;
        proof {
            reveal(Seq::filter);
            assert(wv.take(0) =~= Seq::<crate::rows::WitnessRec>::empty());
            assert(wv.take(0).filter(|r: crate::rows::WitnessRec| r.ref_tx_hash != t)
                =~= out2@.map_values(|x: WitnessRow| x.rec()));
        }
        while k < n2
            invariant
                k <= n2,
                n2 == self.tx_witnesses@.len(),
                self.tx_witnesses@.map_values(|x: WitnessRow| x.rec()) == wv,
                out2@.map_values(|x: WitnessRow| x.rec()) == wv.take(k as int).filter(
                    |r: crate::rows::WitnessRec| r.ref_tx_hash != t,
                ),
            decreases n2 - k,
        {
            let keep = !(self.tx_witnesses[k].ref_tx_hash == t);
            proof {
                reveal(Seq::filter);
                assert(wv.take(k as int + 1).drop_last() =~= wv.take(k as int));
                assert(wv.take(k as int + 1).last() == wv[k as int]);
                assert(wv[k as int] == self.tx_witnesses@[k as int].rec());
            }
            if keep {
                let row = WitnessRow {
                    ref_tx_hash: self.tx_witnesses[k].ref_tx_hash,
                    ref_index: self.tx_witnesses[k].ref_index,
                    ref_dep_index: self.tx_witnesses[k].ref_dep_index,
                    witness: copy_bytes(&self.tx_witnesses[k].witness),
                };
                proof {
                    assert(row.rec() == wv[k as int]);
                }
                out2.push(row);
                proof {
                    assert(out2@.map_values(|x: WitnessRow| x.rec()) =~= wv.take(
                        k as int,
                    ).filter(|r: crate::rows::WitnessRec| r.ref_tx_hash != t).push(wv[k as int]));
                }
            }
            k = k + 1;
        }
        proof {
            assert(wv.take(n2 as int) =~= wv);
        }
        self.tx_witnesses = out2;
        // the transaction row
        let n3 = self.transactions.len();
        let mut out3: Vec<TxRow> = Vec::new();
        let mut m: usize = 0;
        proof {
            reveal(Seq::filter);
            assert(v0.transactions.take(0) =~= Seq::<TxRow>::empty());
            assert(v0.transactions.take(0).filter(|r: TxRow| r.hash != t) =~= out3@);
        }
        while m < n3
            invariant
                m <= n3,
                n3 == self.transactions@.len(),
                self.transactions@ == v0.transactions,
                out3@ == v0.transactions.take(m as int).filter(|r: TxRow| r.hash != t),
            decreases n3 - m,
        {
            let row = self.transactions[m];
            proof {
                let s = v0.transactions;
                reveal(Seq::filter);
                assert(s.take(m as int + 1).drop_last() =~= s.take(m as int));
                assert(s.take(m as int + 1).last() == s[m as int]);
            }
            if !(row.hash == t) {
                out3.push(row);
            }
            m = m + 1;
        }
        proof {
            assert(v0.transactions.take(n3 as int) =~= v0.transactions);
        }
        self.transactions = out3;
        proof {
            assert(self@ =~= eff_remove_transaction(v0, t));
        }
    }

    fn consume_one(&mut self, consumer: Hash32, idx: usize, inp: &CellInput)
        ensures
            final(self)@ == (StoreView {
                cells: eff_consume_one(old(self)@.cells, consumer, idx, *inp),
                ..old(self)@
            }),
    {
        let ghost v0 = self@;
        let n = self.cells.len();
        let mut out: Vec<CellRow> = Vec::new();
        let mut i: usize = 0;
        let ghost f = |r: CellRow|
            if r.tx_hash == inp.previous_output.tx_hash && r.index == inp.previous_output.index
                as usize {
                CellRow {
                    consumed: Option::Some(
                        Consumption { tx_hash: consumer, index: idx, since: inp.since },
                    ),
                    ..r
                }
            } else {
                r
            };
        proof {
            assert(v0.cells.take(0).map_values(f) =~= out@);
        }
        while i < n
            invariant
                i <= n,
                n == self.cells@.len(),
                self@ == v0,
                out@ == v0.cells.take(i as int).map_values(f),
                f == (|r: CellRow|
                    if r.tx_hash == inp.previous_output.tx_hash && r.index
                        == inp.previous_output.index as usize {
                        CellRow {
                            consumed: Option::Some(
                                Consumption { tx_hash: consumer, index: idx, since: inp.since },
                            ),
                            ..r
                        }
                    } else {
                        r
                    }),
            decreases n - i,
    {
            let row = self.cells[i];
            let matches_key = row.tx_hash == inp.previous_output.tx_hash && row.index
                == (inp.previous_output.index as usize);
            let new_row = if matches_key {
                CellRow {
                    tx_hash: row.tx_hash,
                    index: row.index,
                    capacity: row.capacity,
                    lock_hash: row.lock_hash,
                    type_hash: row.type_hash,
                    data_hash: row.data_hash,
                    consumed: Some(Consumption { tx_hash: consumer, index: idx, since: inp.since }),
                }
            } else {
                row
            };
            proof {
                assert(new_row == f(v0.cells[i as int]));
            }
            out.push(new_row);
            proof {
                assert(v0.cells.take(i as int + 1).map_values(f) =~= v0.cells.take(
                    i as int,
                ).map_values(f).push(f(v0.cells[i as int])));
            }
            i = i + 1;
        }
        proof {
            assert(v0.cells.take(n as int) =~= v0.cells);
        }
        self.cells = out;
        proof {
            assert(eff_consume_one(v0.cells, consumer, idx, *inp) == v0.cells.map_values(f));
            assert(self@ =~= (StoreView { cells: eff_consume_one(v0.cells, consumer, idx, *inp), ..v0 }));
        }
    }

    fn consume_cells(&mut self, consumer: Hash32, inputs: &Vec<CellInput>)
        ensures
            final(self)@ == (StoreView {
                cells: eff_consume_cells(old(self)@.cells, consumer, inputs@),
                ..old(self)@
            }),
    {
        let ghost v0 = self@;
        let n = inputs.len();
        let mut i: usize = 0;
        proof {
            assert(inputs@.take(0) =~= Seq::<CellInput>::empty());
            assert(self@ =~= (StoreView {
                cells: eff_consume_cells(v0.cells, consumer, inputs@.take(0)),
                ..v0
            }));
        }
        while i < n
            invariant
                i <= n,
                n == inputs@.len(),
                self@ == (StoreView {
                    cells: eff_consume_cells(v0.cells, consumer, inputs@.take(i as int)),
                    ..v0
                }),
            decreases n - i,
        {
            self.consume_one(consumer, i, &inputs[i]);
            proof {
                assert(inputs@.take(i as int + 1).drop_last() =~= inputs@.take(i as int));
                assert(inputs@.take(i as int + 1).last() == inputs@[i as int]);
                assert(self@ =~= (StoreView {
                    cells: eff_consume_cells(v0.cells, consumer, inputs@.take(i as int + 1)),
                    ..v0
                }));
            }
            i = i + 1;
        }
        proof {
            assert(inputs@.take(n as int) =~= inputs@);
        }
    }

    fn restore_cells(&mut self, t: Hash32)
        ensures
            final(self)@ == (StoreView {
                cells: eff_restore_cells(old(self)@.cells, t),
                ..old(self)@
            }),
    {
        let ghost v0 = self@;
        let n = self.cells.len();
        let mut out: Vec<CellRow> = Vec::new();
        let mut i: usize = 0;
        let ghost f = |r: CellRow|
            if r.consumed matches Option::Some(c) && c.tx_hash == t {
                CellRow { consumed: Option::None, ..r }
            } else {
                r
            };
        proof {
            assert(v0.cells.take(0).map_values(f) =~= out@);
        }
        while i < n
            invariant
                i <= n,
                n == self.cells@.len(),
                self@ == v0,
                out@ == v0.cells.take(i as int).map_values(f),
                f == (|r: CellRow|
                    if r.consumed matches Option::Some(c) && c.tx_hash == t {
                        CellRow { consumed: Option::None, ..r }
                    } else {
                        r
                    }),
            decreases n - i,
        {
            let row = self.cells[i];
            let matches_key = match row.consumed {
                Some(c) => c.tx_hash == t,
                None => false,
            };
            let new_row = if matches_key {
                CellRow {
                    tx_hash: row.tx_hash,
                    index: row.index,
                    capacity: row.capacity,
                    lock_hash: row.lock_hash,
                    type_hash: row.type_hash,
                    data_hash: row.data_hash,
                    consumed: None,
                }
            } else {
                row
            };
            proof {
                assert(new_row == f(v0.cells[i as int]));
            }
            out.push(new_row);
            proof {
                assert(v0.cells.take(i as int + 1).map_values(f) =~= v0.cells.take(
                    i as int,
                ).map_values(f).push(f(v0.cells[i as int])));
            }
            i = i + 1;
        }
        proof {
            assert(v0.cells.take(n as int) =~= v0.cells);
        }
        self.cells = out;
        proof {
            assert(eff_restore_cells(v0.cells, t) == v0.cells.map_values(f));
            assert(self@ =~= (StoreView { cells: eff_restore_cells(v0.cells, t), ..v0 }));
        }
    }

    fn insert_cell_data(&mut self, d: &Vec<u8>) -> (h: Hash32)
        ensures
            final(self)@ == eff_insert_data(old(self)@, d@),
            h == data_hash_of(d@),
    {
        let h = data_hash(d.as_slice());
        if !find_data(&self.cells_data, h) {
            let ghost v0 = self@;
            let copied = copy_bytes(d);
            self.cells_data.push(DataRow { hash: h, data: copied });
            proof {
                assert(self@.cells_data =~= v0.cells_data.push(DataRec { hash: h, data: d@ }));
                assert(self@ =~= (StoreView {
                    cells_data: v0.cells_data.push(DataRec { hash: h, data: d@ }),
                    ..v0
                }));
            }
        }
        h
    }

    fn remove_cell_data(&mut self, h: Hash32)
        ensures
            final(self)@ == eff_gc_data(old(self)@, h),
    {
        if find_data_referenced(&self.cells, h) {
            return ;
        }
        let ghost v0 = self@;
        let ghost dv = v0.cells_data;
        let n = self.cells_data.len();
        let mut out: Vec<DataRow> = Vec::new();
        let mut i: usize = 0;
        proof {
            reveal(Seq::filter);
            assert(dv.take(0) =~= Seq::<DataRec>::empty());
            assert(dv.take(0).filter(|r: DataRec| r.hash != h) =~= out@.map_values(
                |x: DataRow| x.rec(),
            ));
        }
        while i < n
            invariant
                i <= n,
                n == self.cells_data@.len(),
                self@ == v0,
                dv == v0.cells_data,
                out@.map_values(|x: DataRow| x.rec()) == dv.take(i as int).filter(
                    |r: DataRec| r.hash != h,
                ),
            decreases n - i,
        {
            let keep = !(self.cells_data[i].hash == h);
            proof {
                reveal(Seq::filter);
                assert(dv.take(i as int + 1).drop_last() =~= dv.take(i as int));
                assert(dv.take(i as int + 1).last() == dv[i as int]);
                assert(dv[i as int] == self.cells_data@[i as int].rec());
            }
            if keep {
                let row = DataRow {
                    hash: self.cells_data[i].hash,
                    data: copy_bytes(&self.cells_data[i].data),
                };
                proof {
                    assert(row.rec() == dv[i as int]);
                }
                out.push(row);
                proof {
                    assert(out@.map_values(|x: DataRow| x.rec()) =~= dv.take(i as int).filter(
                        |r: DataRec| r.hash != h,
                    ).push(dv[i as int]));
                }
            }
            i = i + 1;
        }
        proof {
            assert(dv.take(n as int) =~= dv);
        }
        self.cells_data = out;
        proof {
            assert(self@ =~= eff_gc_data(v0, h));
        }
    }

    fn insert_script(&mut self, s: &crate::types::Script) -> (h: Hash32)
        ensures
            final(self)@ == eff_insert_script(old(self)@, s.rec()),
            h == script_hash_of(s.rec()),
    {
        let h = script_hash(s);
        if !find_script(&self.scripts, h) {
            let ghost v0 = self@;
            let row = ScriptRow {
                hash: h,
                code_hash: s.code_hash,
                hash_type: s.hash_type,
                args: copy_bytes(&s.args),
            };
            self.scripts.push(row);
            proof {
                assert(self@.scripts =~= v0.scripts.push(
                    crate::rows::ScriptRec {
                        hash: h,
                        code_hash: s.code_hash,
                        hash_type: s.hash_type,
                        args: s.args@,
                    },
                ));
                assert(self@ =~= (StoreView {
                    scripts: v0.scripts.push(
                        crate::rows::ScriptRec {
                            hash: h,
                            code_hash: s.code_hash,
                            hash_type: s.hash_type,
                            args: s.args@,
                        },
                    ),
                    ..v0
                }));
            }
        }
        h
    }

    fn remove_script(&mut self, h: Hash32)
        ensures
            final(self)@ == eff_gc_script(old(self)@, h),
    {
        if find_script_referenced(&self.cells, h) {
            return ;
        }
        let ghost v0 = self@;
        let ghost sv = v0.scripts;
        let n = self.scripts.len();
        let mut out: Vec<ScriptRow> = Vec::new();
        let mut i: usize = 0;
        proof {
            reveal(Seq::filter);
            assert(sv.take(0) =~= Seq::<crate::rows::ScriptRec>::empty());
            assert(sv.take(0).filter(|r: crate::rows::ScriptRec| r.hash != h) =~= out@.map_values(
                |x: ScriptRow| x.rec(),
            ));
        }
        while i < n
            invariant
                i <= n,
                n == self.scripts@.len(),
                self@ == v0,
                sv == v0.scripts,
                out@.map_values(|x: ScriptRow| x.rec()) == sv.take(i as int).filter(
                    |r: crate::rows::ScriptRec| r.hash != h,
                ),
            decreases n - i,
        {
            let keep = !(self.scripts[i].hash == h);
            proof {
                reveal(Seq::filter);
                assert(sv.take(i as int + 1).drop_last() =~= sv.take(i as int));
                assert(sv.take(i as int + 1).last() == sv[i as int]);
                assert(sv[i as int] == self.scripts@[i as int].rec());
            }
            if keep {
                let row = ScriptRow {
                    hash: self.scripts[i].hash,
                    code_hash: self.scripts[i].code_hash,
                    hash_type: self.scripts[i].hash_type,
                    args: copy_bytes(&self.scripts[i].args),
                };
                proof {
                    assert(row.rec() == sv[i as int]);
                }
                out.push(row);
                proof {
                    assert(out@.map_values(|x: ScriptRow| x.rec()) =~= sv.take(i as int).filter(
                        |r: crate::rows::ScriptRec| r.hash != h,
                    ).push(sv[i as int]));
                }
            }
            i = i + 1;
        }
        proof {
            assert(sv.take(n as int) =~= sv);
        }
        self.scripts = out;
        proof {
            assert(self@ =~= eff_gc_script(v0, h));
        }
    }

    fn insert_cell(&mut self, t: Hash32, idx: usize, o: &CellOutput, d: &Vec<u8>)
        ensures
            final(self)@ == eff_insert_cell(old(self)@, t, idx, o.rec(), d@),
    {
        let dh = self.insert_cell_data(d);
        let lh = self.insert_script(&o.lock);
        let th: Option<Hash32> = match &o.type_script {
            Some(ts) => Some(self.insert_script(ts)),
            None => None,
        };
        if !find_cell(&self.cells, t, idx) {
            let ghost v3 = self@;
            self.cells.push(
                CellRow {
                    tx_hash: t,
                    index: idx,
                    capacity: o.capacity,
                    lock_hash: lh,
                    type_hash: th,
                    data_hash: dh,
                    consumed: None,
                },
            );
            proof {
                assert(self@ =~= (StoreView {
                    cells: v3.cells.push(
                        CellRow {
                            tx_hash: t,
                            index: idx,
                            capacity: o.capacity,
                            lock_hash: lh,
                            type_hash: th,
                            data_hash: dh,
                            consumed: None,
                        },
                    ),
                    ..v3
                }));
            }
        }
    }

    fn insert_cells(&mut self, t: Hash32, outputs: &Vec<CellOutput>, outputs_data: &Vec<Vec<u8>>)
        requires
            outputs@.len() == outputs_data@.len(),
        ensures
            final(self)@ == eff_insert_cells(
                old(self)@,
                t,
                outputs@.map_values(|o: CellOutput| o.rec()),
                outputs_data@.map_values(|x: Vec<u8>| x@),
            ),
    {
        let ghost v0 = self@;
        let ghost os = outputs@.map_values(|o: CellOutput| o.rec());
        let ghost ds = outputs_data@.map_values(|x: Vec<u8>| x@);
        let n = outputs.len();
        let mut i: usize = 0;
        proof {
            assert(os.take(0) =~= Seq::<crate::types::OutputRec>::empty());
            assert(ds.take(0) =~= Seq::<Seq<u8>>::empty());
        }
        while i < n
            invariant
                i <= n,
                n == outputs@.len(),
                n == outputs_data@.len(),
                os == outputs@.map_values(|o: CellOutput| o.rec()),
                ds == outputs_data@.map_values(|x: Vec<u8>| x@),
                self@ == eff_insert_cells(v0, t, os.take(i as int), ds.take(i as int)),
            decreases n - i,
        {
            self.insert_cell(t, i, &outputs[i], &outputs_data[i]);
            proof {
                assert(os.take(i as int + 1).drop_last() =~= os.take(i as int));
                assert(ds.take(i as int + 1).drop_last() =~= ds.take(i as int));
                assert(os.take(i as int + 1).last() == os[i as int]);
                assert(ds.take(i as int + 1).last() == ds[i as int]);
                assert(os[i as int] == outputs@[i as int].rec());
                assert(ds[i as int] == outputs_data@[i as int]@);
            }
            i = i + 1;
        }
        proof {
            assert(os.take(n as int) =~= os);
            assert(ds.take(n as int) =~= ds);
        }
    }

    fn remove_cells(&mut self, t: Hash32)
        ensures
            final(self)@ == eff_remove_cells(old(self)@, t),
    {
        let ghost v0 = self@;
        let n = self.cells.len();
        let mut out: Vec<CellRow> = Vec::new();
        let mut cap: Vec<CellRow> = Vec::new();
        let mut i: usize = 0;
        proof {
            reveal(Seq::filter);
            assert(v0.cells.take(0) =~= Seq::<CellRow>::empty());
            assert(v0.cells.take(0).filter(|r: CellRow| r.tx_hash != t) =~= out@);
            assert(v0.cells.take(0).filter(|r: CellRow| r.tx_hash == t) =~= cap@);
        }
        while i < n
            invariant
                i <= n,
                n == self.cells@.len(),
                self@ == v0,
                out@ == v0.cells.take(i as int).filter(|r: CellRow| r.tx_hash != t),
                cap@ == v0.cells.take(i as int).filter(|r: CellRow| r.tx_hash == t),
            decreases n - i,
        {
            let row = self.cells[i];
            proof {
                let s = v0.cells;
                reveal(Seq::filter);
                assert(s.take(i as int + 1).drop_last() =~= s.take(i as int));
                assert(s.take(i as int + 1).last() == s[i as int]);
            }
            if row.tx_hash == t {
                cap.push(row);
            } else {
                out.push(row);
            }
            i = i + 1;
        }
        proof {
            assert(v0.cells.take(n as int) =~= v0.cells);
        }
        self.cells = out;
        let ghost v1 = self@;
        proof {
            assert(v1 =~= (StoreView { cells: v0.cells.filter(|r: CellRow| r.tx_hash != t), ..v0 }));
        }
        // conditionally collect the content-addressed rows of each deleted cell
        let m = cap.len();
        let mut k: usize = 0;
        proof {
            assert(cap@.take(0) =~= Seq::<CellRow>::empty());
        }
        while k < m
            invariant
                k <= m,
                m == cap@.len(),
                cap@ == v0.cells.filter(|r: CellRow| r.tx_hash == t),
                self@ == eff_gc_cells(v1, cap@.take(k as int)),
            decreases m - k,
        {
            let row = cap[k];
            self.remove_cell_data(row.data_hash);
            self.remove_script(row.lock_hash);
            match row.type_hash {
                Some(th) => self.remove_script(th),
                None => {},
            }
            proof {
                assert(cap@.take(k as int + 1).drop_last() =~= cap@.take(k as int));
                assert(cap@.take(k as int + 1).last() == cap@[k as int]);
            }
            k = k + 1;
        }
        proof {
            assert(cap@.take(m as int) =~= cap@);
            assert(self@ == eff_remove_cells(v0, t));
        }
    }

    /// Applies the block as one atomic unit.
    ///
    /// For height 0 the block is accepted unconditionally. For any other
    /// height it is accepted if and only if a stored header at the previous
    /// height carries the declared parent hash; otherwise nothing changes and
    /// the error reports the expected parent's height together with the
    /// stored parent's hash (or the declared parent hash when no header is
    /// stored at that height).
    pub fn insert_block(&mut self, block: &Block) -> (r: Result<(), Error>)
        requires
            old(self)@.schema,
            block.wf(),
        ensures
            r is Ok <==> (block.header.number == 0 || parent_present(
                old(self)@.block_headers,
                block.header,
            )),
            r is Ok ==> final(self)@ == eff_insert_block(old(self)@, block.rec()),
            r is Err ==> final(self)@ == old(self)@,
            r matches Err(e) ==> e == (Error::UnknownParentBlock {
                number: (block.header.number - 1) as u64,
                hash: crate::effects::expected_parent_hash(old(self)@, block.header),
            }),
            final(self)@.schema,
    {
        let ghost v0 = self@;
        if block.header.number != 0 && !self.verify_block(&block.header) {
            let expected = match self.block_hash(block.header.number - 1) {
                Some(stored) => stored,
                None => block.header.parent_hash,
            };
            return Err(
                Error::UnknownParentBlock { number: block.header.number - 1, hash: expected },
            );
        }
        let bh = block.header.hash;
        self.insert_block_header(&block.header);
        self.insert_block_uncles(bh, &block.uncles);
        // each uncle's header and proposals
        let ghost us = block.uncles@.map_values(|u: Uncle| u.rec());
        let ghost v2 = self@;
        let un = block.uncles.len();
        let mut i: usize = 0;
        proof {
            assert(us.take(0) =~= Seq::<crate::types::UncleRec>::empty());
        }
        while i < un
            invariant
                i <= un,
                un == block.uncles@.len(),
                us == block.uncles@.map_values(|u: Uncle| u.rec()),
                self@ == eff_insert_uncles(v2, us.take(i as int)),
            decreases un - i,
        {
            self.insert_uncle_header(&block.uncles[i].header);
            self.insert_block_proposals(block.uncles[i].header.hash, &block.uncles[i].proposals);
            proof {
                assert(us.take(i as int + 1).drop_last() =~= us.take(i as int));
                assert(us.take(i as int + 1).last() == us[i as int]);
                assert(us[i as int] == block.uncles@[i as int].rec());
            }
            i = i + 1;
        }
        proof {
            assert(us.take(un as int) =~= us);
        }
        // the block's own proposals and transaction links
        self.insert_block_proposals(bh, &block.proposals);
        self.insert_block_transactions(bh, &block.transactions);
        // each transaction
        let ghost ts = block.transactions@.map_values(|t: Transaction| t.rec());
        let ghost v5 = self@;
        let tn = block.transactions.len();
        let mut j: usize = 0;
        proof {
            assert(ts.take(0) =~= Seq::<crate::types::TxRec>::empty());
        }
        while j < tn
            invariant
                j <= tn,
                tn == block.transactions@.len(),
                ts == block.transactions@.map_values(|t: Transaction| t.rec()),
                self@ == crate::effects::eff_apply_txs(v5, ts.take(j as int)),
                block.wf(),
            decreases tn - j,
        {
            let tx = &block.transactions[j];
            self.insert_transaction(tx, j);
            if j != 0 {
                self.consume_cells(tx.hash, &tx.inputs);
            }
            proof {
                assert(block.transactions@[j as int].wf());
            }
            self.insert_cells(tx.hash, &tx.outputs, &tx.outputs_data);
            proof {
                assert(ts.take(j as int + 1).drop_last() =~= ts.take(j as int));
                assert(ts.take(j as int + 1).last() == ts[j as int]);
                assert(ts[j as int] == block.transactions@[j as int].rec());
                assert(self@ == eff_apply_tx(crate::effects::eff_apply_txs(v5, ts.take(j as int)), ts[j as int], j));
            }
            j = j + 1;
        }
        proof {
            assert(ts.take(tn as int) =~= ts);
            assert(self@ == eff_insert_block(v0, block.rec()));
            crate::effects::lemma_schema_insert_block(v0, block.rec());
        }
        Ok(())
    }

    /// Removes the block stored at this height, with all its derived rows, in
    /// strict reverse dependency order; a height with no stored block is a
    /// no-op.
    pub fn remove_block(&mut self, number: u64)
        requires
            old(self)@.schema,
        ensures
            final(self)@ == eff_remove_block(old(self)@, number),
            final(self)@.schema,
    {
        let ghost v0 = self@;
        proof {
            crate::effects::lemma_schema_remove_block(v0, number);
        }
        let bh_opt = self.block_hash(number);
        match bh_opt {
            None => {},
            Some(h) => {
                let tx_hashes = self.remove_block_transactions(h);
                let ghost v1 = self@;
                let tn = tx_hashes.len();
                let mut i: usize = 0;
                proof {
                    assert(tx_hashes@.take(0) =~= Seq::<Hash32>::empty());
                }
                while i < tn
                    invariant
                        i <= tn,
                        tn == tx_hashes@.len(),
                        self@ == eff_remove_txs(v1, tx_hashes@.take(i as int)),
                    decreases tn - i,
                {
                    let t = tx_hashes[i];
                    self.remove_transaction(t);
                    self.restore_cells(t);
                    self.remove_cells(t);
                    proof {
                        assert(tx_hashes@.take(i as int + 1).drop_last() =~= tx_hashes@.take(
                            i as int,
                        ));
                        assert(tx_hashes@.take(i as int + 1).last() == tx_hashes@[i as int]);
                    }
                    i = i + 1;
                }
                proof {
                    assert(tx_hashes@.take(tn as int) =~= tx_hashes@);
                }
                self.remove_own_proposals(h);
                let uncle_hashes = self.remove_block_uncles(h);
                let ghost v4 = self@;
                let un = uncle_hashes.len();
                let mut k: usize = 0;
                proof {
                    assert(uncle_hashes@.take(0) =~= Seq::<Hash32>::empty());
                }
                while k < un
                    invariant
                        k <= un,
                        un == uncle_hashes@.len(),
                        self@ == eff_remove_uncles(v4, uncle_hashes@.take(k as int)),
                    decreases un - k,
                {
                    let u = uncle_hashes[k];
                    self.remove_uncle_header(u);
                    self.remove_block_proposals(u);
                    proof {
                        assert(uncle_hashes@.take(k as int + 1).drop_last() =~= uncle_hashes@.take(
                            k as int,
                        ));
                        assert(uncle_hashes@.take(k as int + 1).last() == uncle_hashes@[k as int]);
                    }
                    k = k + 1;
                }
                proof {
                    assert(uncle_hashes@.take(un as int) =~= uncle_hashes@);
                }
                self.remove_block_header(h);
                proof {
                    assert(self@ == eff_remove_block(v0, number));
                }
            },
        }
    }

    /// How many rows each table holds, for inspection:
    /// headers, uncles, links, proposals, transaction links, transactions,
    /// cell deps, header deps, witnesses, cells, data blobs, scripts.
    pub fn header_count(&self) -> (r: usize)
        ensures
            r == self@.block_headers.len(),
    {
        self.block_headers.len()
    }

    pub fn uncle_header_count(&self) -> (r: usize)
        ensures
            r == self@.uncle_headers.len(),
    {
        self.uncle_headers.len()
    }

    pub fn uncle_link_count(&self) -> (r: usize)
        ensures
            r == self@.block_uncles.len(),
    {
        self.block_uncles.len()
    }

    pub fn proposal_count(&self) -> (r: usize)
        ensures
            r == self@.block_proposals.len(),
    {
        self.block_proposals.len()
    }

    pub fn block_tx_count(&self) -> (r: usize)
        ensures
            r == self@.block_transactions.len(),
    {
        self.block_transactions.len()
    }

    pub fn tx_count(&self) -> (r: usize)
        ensures
            r == self@.transactions.len(),
    {
        self.transactions.len()
    }

    pub fn cell_dep_count(&self) -> (r: usize)
        ensures
            r == self@.tx_cell_deps.len(),
    {
        self.tx_cell_deps.len()
    }

    pub fn header_dep_count(&self) -> (r: usize)
        ensures
            r == self@.tx_header_deps.len(),
    {
        self.tx_header_deps.len()
    }

    pub fn witness_count(&self) -> (r: usize)
        ensures
            r == self@.tx_witnesses.len(),
    {
        let r = self.tx_witnesses.len();
        proof {
            assert(self@.tx_witnesses.len() == self.tx_witnesses@.len());
        }
        r
    }

    pub fn cell_count(&self) -> (r: usize)
        ensures
            r == self@.cells.len(),
    {
        self.cells.len()
    }

    pub fn data_count(&self) -> (r: usize)
        ensures
            r == self@.cells_data.len(),
    {
        let r = self.cells_data.len();
        proof {
            assert(self@.cells_data.len() == self.cells_data@.len());
        }
        r
    }

    pub fn script_count(&self) -> (r: usize)
        ensures
            r == self@.scripts.len(),
    {
        let r = self.scripts.len();
        proof {
            assert(self@.scripts.len() == self.scripts@.len());
        }
        r
    }

    /// The first stored cell with this out-point key, if any.
    pub fn get_cell(&self, t: Hash32, idx: usize) -> (r: Option<CellRow>)
        ensures
            r is Some <==> has_cell(self@.cells, t, idx),
            r matches Some(c) ==> exists|i: int|
                0 <= i < self@.cells.len() && (#[trigger] self@.cells[i]) == c && c.tx_hash == t
                    && c.index == idx,
    {
        let n = self.cells.len();
        let mut i: usize = 0;
        while i < n
            invariant
                i <= n,
                n == self.cells@.len(),
                forall|k: int|
                    0 <= k < i ==> !((#[trigger] self@.cells[k]).tx_hash == t && self@.cells[k].index
                        == idx),
            decreases n - i,
        {
            if self.cells[i].tx_hash == t && self.cells[i].index == idx {
                proof {
                    assert(self@.cells[i as int].tx_hash == t && self@.cells[i as int].index
                        == idx);
                }
                return Some(self.cells[i]);
            }
            i = i + 1;
        }
        None
    }

    /// The stored bytes of the data blob with this content hash, if any.
    pub fn get_data(&self, h: Hash32) -> (r: Option<Vec<u8>>)
        ensures
            r is Some <==> has_data(self@.cells_data, h),
            r matches Some(d) ==> exists|i: int|
                0 <= i < self@.cells_data.len() && (#[trigger] self@.cells_data[i]).hash == h
                    && self@.cells_data[i].data == d@,
    {
        let ghost view = self.cells_data@.map_values(|x: DataRow| x.rec());
        let n = self.cells_data.len();
        let mut i: usize = 0;
        while i < n
            invariant
                i <= n,
                n == self.cells_data@.len(),
                view == self.cells_data@.map_values(|x: DataRow| x.rec()),
                view == self@.cells_data,
                forall|k: int| 0 <= k < i ==> (#[trigger] view[k]).hash != h,
            decreases n - i,
        {
            if self.cells_data[i].hash == h {
                let d = copy_bytes(&self.cells_data[i].data);
                proof {
                    assert(view[i as int] == self.cells_data@[i as int].rec());
                    assert(view[i as int].hash == h);
                    assert(view[i as int].data == d@);
                }
                return Some(d);
            }
            proof {
                assert(view[i as int] == self.cells_data@[i as int].rec());
            }
            i = i + 1;
        }
        None
    }

    /// Whether a script row with this content hash is stored.
    pub fn script_exists(&self, h: Hash32) -> (r: bool)
        ensures
            r == has_script(self@.scripts, h),
    {
        find_script(&self.scripts, h)
    }
}

} // verus!
