//! The read endpoint's projection of a stored row.
//!
//! The endpoint serves each row's identity key, alias, capacity and
//! first-seen. The capacity crosses the wire as the exact bitcoin
//! decimal text (never as a binary float, so nothing is lost in
//! serialization), or stays absent when the row has none; the
//! first-seen instant crosses as RFC 3339 text.

use vstd::prelude::*;

use crate::store::StoredNodeRow;
use crate::timeconv::{rfc3339_chars, rfc3339_text, timestamp_of_epoch, unix_to_timestamptz};
use crate::units::{btc_chars, capacity_text};

verus! {

/// A stored row as the read endpoint serves it.
pub struct RenderedNode {
    pub public_key: String,
    pub alias: String,
    /// The capacity in bitcoin as exact decimal text, absent when the
    /// row's capacity is.
    pub capacity: Option<String>,
    /// The first-seen instant as RFC 3339 text.
    pub first_seen: String,
}

/// Projects one stored row into the served shape.
pub fn render_node(row: &StoredNodeRow) -> (r: RenderedNode)
    ensures
        r.public_key@ == row.public_key@,
        r.alias@ == row.alias@,
        row.capacity_sats is Some ==> (r.capacity matches Some(t) && t@ == btc_chars(
            row.capacity_sats->0,
        )),
        row.capacity_sats is None ==> r.capacity is None,
        r.first_seen@ == rfc3339_chars(timestamp_of_epoch(row.first_seen_epoch as nat)),
{
    let ts = unix_to_timestamptz(row.first_seen_epoch);
    RenderedNode {
        public_key: row.public_key.clone(),
        alias: row.alias.clone(),
        capacity: capacity_text(row.capacity_sats),
        first_seen: rfc3339_text(&ts),
    }
}

/// Projects every stored row, in store order.
pub fn render_nodes(rows: &Vec<StoredNodeRow>) -> (r: Vec<RenderedNode>)
    ensures
        r@.len() == rows@.len(),
        forall|i: int|
            0 <= i < rows@.len() ==> {
                let out = #[trigger] r@[i];
                let row = rows@[i];
                &&& out.public_key@ == row.public_key@
                &&& out.alias@ == row.alias@
                &&& (row.capacity_sats is Some ==> (out.capacity matches Some(t) && t@
                    == btc_chars(row.capacity_sats->0)))
                &&& (row.capacity_sats is None ==> out.capacity is None)
                &&& out.first_seen@ == rfc3339_chars(timestamp_of_epoch(row.first_seen_epoch as nat))
            },
{
    let mut out: Vec<RenderedNode> = Vec::new();
    let n = rows.len();
    let mut i: usize = 0;
    while i < n
        invariant
            n == rows@.len(),
            i <= n,
            out@.len() == i,
            forall|j: int|
                0 <= j < i ==> {
                    let o = #[trigger] out@[j];
                    let row = rows@[j];
                    &&& o.public_key@ == row.public_key@
                    &&& o.alias@ == row.alias@
                    &&& (row.capacity_sats is Some ==> (o.capacity matches Some(t) && t@
                        == btc_chars(row.capacity_sats->0)))
                    &&& (row.capacity_sats is None ==> o.capacity is None)
                    &&& o.first_seen@ == rfc3339_chars(
                        timestamp_of_epoch(row.first_seen_epoch as nat),
                    )
                },
        decreases n - i,
    {
        let rendered = render_node(&rows[i]);
        out.push(rendered);
        i += 1;
    }
    out
}

} // verus!
