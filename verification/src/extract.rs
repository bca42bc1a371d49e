//! Field extraction: from fetched feed bodies to plain typed values.
//!
//! Each feed body is parsed as JSON and walked for the consumed fields.  A
//! missing key, a wrong-typed value, or a malformed numeral makes the single
//! field absent, never an error; only a body that is not JSON at all yields
//! `None` for the whole document (the transport-failure case).  Nothing is
//! promised about the extracted values themselves: the engine takes them as
//! arguments and is verified for every value.

use vstd::prelude::*;

use crate::json::{
    json_as_array,
    json_as_number,
    json_as_str_bytes,
    json_doc_ok,
    json_get,
    json_number_text,
    json_parse,
};
use crate::num::{parse_dec, Dec};

verus! {

/// The consumed fields of the primary pool-stats document.
#[derive(Clone, Copy, PartialEq, Eq, Structural, Debug)]
pub struct PrimaryFields {
    pub block_height: Option<u64>,
    pub network_difficulty: Option<Dec>,
    pub pool_hashrate: Option<Dec>,
    pub connected_miners: Option<u64>,
    pub pool_effort: Option<Dec>,
    pub total_blocks: Option<u64>,
}

/// The consumed field of the external network-hashrate feed.
#[derive(Clone, Copy, PartialEq, Eq, Structural, Debug)]
pub struct InfoFields {
    pub hash_rate: Option<Dec>,
}

/// One market entry of the price-tracking feed.
#[derive(Clone, Debug)]
pub struct PriceEntry {
    pub base_name: Vec<u8>,
    pub quote_name: Vec<u8>,
    pub last_price: Option<Dec>,
}

/// The consumed fields of the first entry of the blocks-detail document.
#[derive(Clone, Debug)]
pub struct BlockInfo {
    pub status: Option<Vec<u8>>,
    pub confirmation_progress: Option<Dec>,
}

/// The member under `key`, if `v` holds an object that has it.
fn opt_get<'a>(v: Option<&'a serde_json::Value>, key: &str) -> Option<&'a serde_json::Value> {
    match v {
        None => None,
        Some(x) => json_get(x, key),
    }
}

/// The numeric value at `v`, if there is a number there whose numeral the
/// parser accepts.
fn num_field(v: Option<&serde_json::Value>) -> Option<Dec> {
    match v {
        None => None,
        Some(x) => match json_as_number(x) {
            None => None,
            Some(n) => {
                let text = json_number_text(n);
                parse_dec(&text)
            },
        },
    }
}

/// The unsigned integer at `v`, if there is a plain integer numeral there.
fn int_field(v: Option<&serde_json::Value>) -> Option<u64> {
    match num_field(v) {
        None => None,
        Some(d) => crate::num::dec_to_u64(d),
    }
}

/// The string at `v`, as bytes.
fn str_field(v: Option<&serde_json::Value>) -> Option<Vec<u8>> {
    match v {
        None => None,
        Some(x) => json_as_str_bytes(x),
    }
}

/// Extracts the consumed fields of the primary pool-stats document.
/// `None` only when the body is not valid JSON.
pub fn parse_primary(body: &str) -> (r: Option<PrimaryFields>)
    ensures
        r is Some <==> json_doc_ok(body@),
{
    let doc = match json_parse(body) {
        None => {
            return None;
        },
        Some(d) => d,
    };
    let pool = json_get(&doc, "pool");
    let network_stats = opt_get(pool, "networkStats");
    let pool_stats = opt_get(pool, "poolStats");
    Some(
        PrimaryFields {
            block_height: int_field(opt_get(network_stats, "blockHeight")),
            network_difficulty: num_field(opt_get(network_stats, "networkDifficulty")),
            pool_hashrate: num_field(opt_get(pool_stats, "poolHashrate")),
            connected_miners: int_field(opt_get(pool_stats, "connectedMiners")),
            pool_effort: num_field(opt_get(pool, "poolEffort")),
            total_blocks: int_field(opt_get(pool, "totalBlocks")),
        },
    )
}

/// Extracts the network hashrate from the external feed.
/// `None` only when the body is not valid JSON.
pub fn parse_info(body: &str) -> (r: Option<InfoFields>)
    ensures
        r is Some <==> json_doc_ok(body@),
{
    let doc = match json_parse(body) {
        None => {
            return None;
        },
        Some(d) => d,
    };
    let hash_rate = num_field(json_get(&doc, "hashRate"));
    Some(InfoFields { hash_rate })
}

/// Extracts the market entries of the price-tracking feed.  A body that is
/// valid JSON but not an array of market objects yields an empty list;
/// entries without both names are dropped (they can match no pair).
/// `None` only when the body is not valid JSON.
pub fn parse_prices(body: &str) -> (r: Option<Vec<PriceEntry>>)
    ensures
        r is Some <==> json_doc_ok(body@),
{
    let doc = match json_parse(body) {
        None => {
            return None;
        },
        Some(d) => d,
    };
    let mut entries: Vec<PriceEntry> = Vec::new();
    match json_as_array(&doc) {
        None => Some(entries),
        Some(arr) => {
            let n = arr.len();
            let mut i: usize = 0;
            while i < n
                invariant
                    n == arr@.len(),
                decreases n - i,
            {
                let item = &arr[i];
                let base_name = str_field(json_get(item, "base_name"));
                let quote_name = str_field(json_get(item, "quote_name"));
                match (base_name, quote_name) {
                    (Some(b), Some(q)) => {
                        let last_price = num_field(json_get(item, "last_price"));
                        entries.push(PriceEntry { base_name: b, quote_name: q, last_price });
                    },
                    _ => {},
                }
                i = i + 1;
            }
            Some(entries)
        },
    }
}

/// Extracts the status and confirmation progress of the most recent block
/// from the blocks-detail document.  A body without a first array entry
/// yields both fields absent.  `None` only when the body is not valid JSON.
pub fn parse_blocks(body: &str) -> (r: Option<BlockInfo>)
    ensures
        r is Some <==> json_doc_ok(body@),
{
    let doc = match json_parse(body) {
        None => {
            return None;
        },
        Some(d) => d,
    };
    match json_as_array(&doc) {
        None => Some(BlockInfo { status: None, confirmation_progress: None }),
        Some(arr) => {
            if arr.len() == 0 {
                Some(BlockInfo { status: None, confirmation_progress: None })
            } else {
                let first = &arr[0];
                Some(
                    BlockInfo {
                        status: str_field(json_get(first, "status")),
                        confirmation_progress: num_field(json_get(first, "confirmationProgress")),
                    },
                )
            }
        },
    }
}

} // verus!
