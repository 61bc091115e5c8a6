use chain_indexer::error::Error;
use chain_indexer::hashing::data_hash;
use chain_indexer::storage::Storage;
use chain_indexer::types::{
    Block, CellInput, CellOutput, Dao, Hash32, Header, OutPoint, Script, ShortId, Transaction,
    Uncle,
};

fn h(n: u64) -> Hash32 {
    Hash32 { w0: n, w1: 0xaaaa, w2: 0, w3: 0 }
}

fn header(number: u64, hash: Hash32, parent: Hash32) -> Header {
    Header {
        hash,
        version: 0,
        compact_target: 0x1d00_ffff,
        timestamp: 1_600_000_000_000 + number,
        number,
        epoch_number: 0,
        epoch_index: 0,
        epoch_length: 1800,
        parent_hash: parent,
        transactions_root: h(900 + number),
        proposals_hash: h(0),
        uncles_hash: h(0),
        dao: Dao { c: 1, ar: 2, s: 3, u: 4 },
        nonce: 77,
    }
}

fn script(seed: u64) -> Script {
    Script { code_hash: h(7000 + seed), hash_type: 1, args: vec![seed as u8, 9] }
}

fn tx(seed: u64, inputs: Vec<CellInput>, outputs_data: Vec<Vec<u8>>) -> Transaction {
    let outputs: Vec<CellOutput> = outputs_data
        .iter()
        .enumerate()
        .map(|(i, _)| CellOutput {
            capacity: 1000 + i as u64,
            lock: script(seed),
            type_script: if i % 2 == 1 { Some(script(seed + 50)) } else { None },
        })
        .collect();
    Transaction {
        hash: h(5000 + seed),
        version: 0,
        cell_deps: vec![],
        header_deps: vec![],
        witnesses: vec![vec![seed as u8]],
        inputs,
        outputs,
        outputs_data,
    }
}

fn block(number: u64, hash: Hash32, parent: Hash32, txs: Vec<Transaction>) -> Block {
    Block { header: header(number, hash, parent), uncles: vec![], proposals: vec![], transactions: txs }
}

fn input(tx_hash: Hash32, index: u32) -> CellInput {
    CellInput { previous_output: OutPoint { tx_hash, index }, since: 5 }
}

#[test]
fn initialize_creates_schema_and_reports_empty() {
    let mut st = Storage::new();
    assert!(st.is_first_run());
    assert_eq!(st.initialize(), None);
    assert!(!st.is_first_run());
    assert_eq!(st.initialize(), None);
}

#[test]
fn destory_drops_everything() {
    let mut st = Storage::new();
    st.initialize();
    let genesis = block(0, h(1), h(999), vec![tx(1, vec![], vec![vec![1]])]);
    st.insert_block(&genesis).unwrap();
    assert_eq!(st.header_count(), 1);
    st.destory();
    assert!(st.is_first_run());
    assert_eq!(st.initialize(), None);
    assert_eq!(st.header_count(), 0);
}

// Scenario: genesis is accepted unconditionally; a child with the right
// parent hash is accepted; an alternative child with a wrong parent hash is
// rejected with the expected parent's place, and nothing changes.
#[test]
fn genesis_child_and_fork_rejection() {
    let mut st = Storage::new();
    assert_eq!(st.initialize(), None);
    let genesis = block(0, h(1), h(12345), vec![tx(1, vec![], vec![vec![1]])]);
    st.insert_block(&genesis).unwrap();
    assert_eq!(st.check_current_block(), Some(0));
    let b1 = block(1, h(2), h(1), vec![tx(2, vec![], vec![vec![2]])]);
    st.insert_block(&b1).unwrap();
    assert_eq!(st.check_current_block(), Some(1));
    // a racing alternative block 1 whose declared parent is not ours: the
    // error names the stored parent, genesis
    let b1_alt = block(1, h(3), h(777), vec![tx(3, vec![], vec![vec![3]])]);
    let err = st.insert_block(&b1_alt).unwrap_err();
    assert_eq!(err, Error::UnknownParentBlock { number: 0, hash: h(1) });
    // a block far beyond the tip: no header is stored at its parent height,
    // so the error can only carry the declared parent hash
    let b5 = block(5, h(6), h(888), vec![tx(6, vec![], vec![vec![6]])]);
    let err = st.insert_block(&b5).unwrap_err();
    assert_eq!(err, Error::UnknownParentBlock { number: 4, hash: h(888) });
    assert_eq!(st.check_current_block(), Some(1));
    assert_eq!(st.block_hash(1), Some(h(2)));
    assert_eq!(st.header_count(), 2);
    assert!(st.verify_block(&header(2, h(9), h(2))));
    assert!(!st.verify_block(&header(2, h(9), h(3))));
}

// Monotonic height query: inserting heights 0..=3 in order reports 3;
// removing the top block reports 2.
#[test]
fn tip_moves_with_insert_and_remove() {
    let mut st = Storage::new();
    st.initialize();
    let mut parent = h(4242);
    for n in 0..4u64 {
        let b = block(n, h(10 + n), parent, vec![tx(10 + n, vec![], vec![vec![n as u8]])]);
        st.insert_block(&b).unwrap();
        parent = h(10 + n);
        assert_eq!(st.check_current_block(), Some(n));
    }
    st.remove_block(3);
    assert_eq!(st.check_current_block(), Some(2));
    assert_eq!(st.block_hash(3), None);
}

// Round trip: inserting a block with uncles, proposals, dependencies,
// witnesses and cells, then removing it, returns every table to its prior
// state.
#[test]
fn insert_then_remove_restores_tables() {
    let mut st = Storage::new();
    st.initialize();
    let genesis = block(0, h(1), h(0), vec![tx(1, vec![], vec![vec![1, 2, 3]])]);
    st.insert_block(&genesis).unwrap();
    let before = (
        st.header_count(),
        st.uncle_header_count(),
        st.uncle_link_count(),
        st.proposal_count(),
        st.block_tx_count(),
        st.tx_count(),
        st.cell_dep_count(),
        st.header_dep_count(),
        st.witness_count(),
        st.cell_count(),
        st.data_count(),
        st.script_count(),
    );
    // a rich block at height 1: one uncle with proposals, its own proposals,
    // and two transactions, the second consuming genesis' cell
    let uncle = Uncle {
        header: header(1, h(600), h(1)),
        proposals: vec![ShortId { w0: 61, w1: 0 }, ShortId { w0: 62, w1: 0 }],
    };
    let mut t2 = tx(21, vec![input(h(5001), 0)], vec![vec![9, 9], vec![1, 2, 3]]);
    t2.cell_deps = vec![chain_indexer::types::CellDep {
        out_point: OutPoint { tx_hash: h(5001), index: 0 },
        dep_type: 0,
    }];
    t2.header_deps = vec![h(1)];
    let b1 = Block {
        header: header(1, h(2), h(1)),
        uncles: vec![uncle],
        proposals: vec![ShortId { w0: 71, w1: 1 }],
        transactions: vec![tx(20, vec![], vec![vec![4, 5]]), t2],
    };
    st.insert_block(&b1).unwrap();
    // the consumed genesis cell carries its consumer now
    let consumed = st.get_cell(h(5001), 0).unwrap();
    let marker = consumed.consumed.unwrap();
    assert_eq!(marker.tx_hash, h(5021));
    assert_eq!(marker.index, 0);
    assert_eq!(marker.since, 5);
    st.remove_block(1);
    let after = (
        st.header_count(),
        st.uncle_header_count(),
        st.uncle_link_count(),
        st.proposal_count(),
        st.block_tx_count(),
        st.tx_count(),
        st.cell_dep_count(),
        st.header_dep_count(),
        st.witness_count(),
        st.cell_count(),
        st.data_count(),
        st.script_count(),
    );
    assert_eq!(before, after);
    // rollback restored the consumption state of genesis' cell
    let restored = st.get_cell(h(5001), 0).unwrap();
    assert_eq!(restored.consumed, None);
    assert_eq!(restored.capacity, 1000);
    // and genesis' own data blob is still there
    assert_eq!(st.get_data(data_hash(&[1, 2, 3])), Some(vec![1, 2, 3]));
    assert_eq!(st.check_current_block(), Some(0));
}

// Idempotent dedup: byte-identical blobs share one data row; the row
// survives while any referencing cell remains and goes when the last one
// goes.
#[test]
fn content_addressed_data_is_deduplicated() {
    let mut st = Storage::new();
    st.initialize();
    // two outputs with byte-identical data in one block: one data row
    let genesis = block(0, h(1), h(0), vec![tx(1, vec![], vec![vec![8, 8], vec![8, 8]])]);
    st.insert_block(&genesis).unwrap();
    assert_eq!(st.data_count(), 1);
    assert_eq!(st.get_data(data_hash(&[8, 8])), Some(vec![8, 8]));
    // a second block whose cell shares the same bytes: still one row
    let b1 = block(1, h(2), h(1), vec![tx(2, vec![], vec![vec![8, 8]])]);
    st.insert_block(&b1).unwrap();
    assert_eq!(st.data_count(), 1);
    // removing one referencing block keeps the shared row
    st.remove_block(1);
    assert_eq!(st.data_count(), 1);
    assert_eq!(st.get_data(data_hash(&[8, 8])), Some(vec![8, 8]));
    // removing the last referencing block collects it
    st.remove_block(0);
    assert_eq!(st.data_count(), 0);
    assert_eq!(st.get_data(data_hash(&[8, 8])), None);
}

#[test]
fn shared_scripts_are_deduplicated_and_collected() {
    let mut st = Storage::new();
    st.initialize();
    // both outputs use the same lock script: one script row
    let genesis = block(0, h(1), h(0), vec![tx(1, vec![], vec![vec![1], vec![2]])]);
    st.insert_block(&genesis).unwrap();
    // lock script of seed 1 everywhere, plus one type script on output 1
    assert_eq!(st.script_count(), 2);
    st.remove_block(0);
    assert_eq!(st.script_count(), 0);
}

#[test]
fn removing_an_absent_height_changes_nothing() {
    let mut st = Storage::new();
    st.initialize();
    let genesis = block(0, h(1), h(0), vec![tx(1, vec![], vec![vec![1]])]);
    st.insert_block(&genesis).unwrap();
    let before = (st.header_count(), st.tx_count(), st.cell_count());
    st.remove_block(7);
    let after = (st.header_count(), st.tx_count(), st.cell_count());
    assert_eq!(before, after);
}

// The digest wrappers feed real content hashes: a blob is found again under
// the hash computed from its bytes, and different bytes get different keys.
#[test]
fn data_hash_addresses_stored_blobs() {
    let mut st = Storage::new();
    st.initialize();
    let genesis = block(0, h(1), h(0), vec![tx(1, vec![], vec![vec![10, 20, 30], vec![40]])]);
    st.insert_block(&genesis).unwrap();
    assert_eq!(st.get_data(data_hash(&[10, 20, 30])), Some(vec![10, 20, 30]));
    assert_eq!(st.get_data(data_hash(&[40])), Some(vec![40]));
    assert_ne!(data_hash(&[10, 20, 30]), data_hash(&[40]));
    assert_eq!(st.get_data(data_hash(&[99])), None);
}
