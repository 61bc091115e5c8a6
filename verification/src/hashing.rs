//! Content-addressed keys for data blobs and scripts.
//!
//! The digests themselves are computed by the chain-types crate; this module
//! names their results and converts them into [`Hash32`] keys. Everything a
//! contract says about a digest goes through the two uninterpreted names, so
//! the only assumption is that the outside functions are functions of their
//! arguments alone.

use vstd::prelude::*;

use uckb_jsonrpc_core::types::packed;
use uckb_jsonrpc_core::types::prelude::{Builder, Entity, Pack};

use crate::codec::{hash_le_bytes, hash_of_le, le_at, lemma_hash_of_le};
use crate::types::{Hash32, Script, ScriptVal};

verus! {

/// The 32-byte content digest of a cell's data blob.
pub uninterp spec fn data_digest(data: Seq<u8>) -> Seq<u8>;

/// The 32-byte digest of a script's code hash, hash type and args.
pub uninterp spec fn script_digest(code_hash: Seq<u8>, hash_type: u8, args: Seq<u8>) -> Seq<u8>;

/// Relies on `packed::CellOutput::calc_data_hash` of uckb-jsonrpc-core: the
/// digest of a cell data blob, a function of the bytes alone.
#[verifier::external_body]
fn calc_data_hash(data: &[u8]) -> (r: Vec<u8>)
    ensures
        r@ == data_digest(data@),
        r@.len() == 32,
{
    packed::CellOutput::calc_data_hash(data).raw_data().to_vec()
}

/// Relies on `packed::Script::calc_script_hash` of uckb-jsonrpc-core: the
/// digest of a script, a function of its code hash, hash type and args alone.
#[verifier::external_body]
fn calc_script_hash(code_hash: &[u8], hash_type: u8, args: &[u8]) -> (r: Vec<u8>)
    requires
        code_hash@.len() == 32,
    ensures
        r@ == script_digest(code_hash@, hash_type, args@),
        r@.len() == 32,
{
    let script = packed::Script::new_builder()
        .code_hash(packed::Byte32::from_slice(code_hash).unwrap())
        .hash_type(packed::Byte::new(hash_type))
        .args(Pack::pack(args))
        .build();
    script.calc_script_hash().raw_data().to_vec()
}

/// The content-addressed key of a data blob.
pub open spec fn data_hash_of(data: Seq<u8>) -> Hash32 {
    hash_of_le(data_digest(data))
}

/// The content-addressed key of a script.
pub open spec fn script_hash_of(s: ScriptVal) -> Hash32 {
    hash_of_le(script_digest(hash_le_bytes(s.code_hash), s.hash_type, s.args))
}

/// Decodes a digest known to be exactly 32 bytes.
fn hash_from_exact(s: &[u8]) -> (h: Hash32)
    requires
        s@.len() == 32,
    ensures
        h == hash_of_le(s@),
        hash_le_bytes(h) == s@,
{
    let h = Hash32 {
        w0: le_at(s, 0, 8),
        w1: le_at(s, 8, 8),
        w2: le_at(s, 16, 8),
        w3: le_at(s, 24, 8),
    };
    proof {
        assert(hash_le_bytes(h) =~= s@.subrange(0, 8) + s@.subrange(8, 16) + s@.subrange(16, 24)
            + s@.subrange(24, 32));
        assert(hash_le_bytes(h) =~= s@);
        lemma_hash_of_le(h, s@);
    }
    h
}

/// The content-addressed key of a data blob, as stored in the cells table.
pub fn data_hash(data: &[u8]) -> (h: Hash32)
    ensures
        h == data_hash_of(data@),
{
    let digest = calc_data_hash(data);
    hash_from_exact(digest.as_slice())
}

/// The content-addressed key of a script, as stored in the scripts table.
pub fn script_hash(script: &Script) -> (h: Hash32)
    ensures
        h == script_hash_of(script.rec()),
{
    let code = script.code_hash.to_bytes();
    let digest = calc_script_hash(code.as_slice(), script.hash_type, script.args.as_slice());
    hash_from_exact(digest.as_slice())
}

} // verus!
