//! Traffic synchronisation from the time-series store to the user database:
//! the consumer's connection string, and the per-block traffic delta applied
//! to a peer's totals.
use crate::text::{contains_char, has_prefix, owned, push_char, push_text, starts_with_text, substring, trim, trim_text};
use vstd::prelude::*;

verus! {

/// The connection string of the message-queue consumer: the configured DSN,
/// trimmed, its scheme "taos+ws://", "ws://" or "http://" (the first that
/// matches) replaced by "taos://", followed by "group.id=<group_id>" as a query
/// parameter ("?" when the DSN has no query yet, "&" otherwise).
pub open spec fn tmq_dsn_spec(dsn: Seq<char>, group_id: Seq<char>) -> Seq<char> {
    let raw = trim(dsn);
    let base = if has_prefix(raw, "taos+ws://"@) {
        "taos://"@ + raw.skip(10)
    } else if has_prefix(raw, "ws://"@) {
        "taos://"@ + raw.skip(5)
    } else if has_prefix(raw, "http://"@) {
        "taos://"@ + raw.skip(7)
    } else {
        raw
    };
    let sep = if base.contains('?') {
        '&'
    } else {
        '?'
    };
    base + seq![sep] + "group.id="@ + group_id
}

fn replace_scheme(raw: &str, prefix_len: usize) -> (s: String)
    requires
        prefix_len <= raw@.len(),
    ensures
        s@ == "taos://"@ + raw@.skip(prefix_len as int),
{
    let mut s = "taos://".to_owned();
    let rest = substring(raw, prefix_len, raw.unicode_len());
    push_text(&mut s, rest.as_str());
    proof {
        assert(raw@.subrange(prefix_len as int, raw@.len() as int) =~= raw@.skip(prefix_len as int));
    }
    s
}

/// See `tmq_dsn_spec`.
pub fn tmq_dsn(dsn: &str, group_id: &str) -> (s: String)
    ensures
        s@ == tmq_dsn_spec(dsn@, group_id@),
{
    let raw = trim_text(dsn);
    let r = raw.as_str();
    proof {
        reveal_strlit("taos+ws://");
        reveal_strlit("ws://");
        reveal_strlit("http://");
    }
    let mut base = if starts_with_text(r, "taos+ws://") {
        replace_scheme(r, 10)
    } else if starts_with_text(r, "ws://") {
        replace_scheme(r, 5)
    } else if starts_with_text(r, "http://") {
        replace_scheme(r, 7)
    } else {
        owned(r)
    };
    let sep = if contains_char(base.as_str(), '?') {
        '&'
    } else {
        '?'
    };
    push_char(&mut base, sep);
    push_text(&mut base, "group.id=");
    push_text(&mut base, group_id);
    base
}

/// One row of the traffic topic.
#[derive(Debug, Clone)]
pub struct TrafficRow {
    pub peer_id: String,
    pub upload_bytes: i64,
    pub download_bytes: i64,
}

/// The traffic of one block of rows, to add to a peer's totals.
#[derive(Debug, Clone)]
pub struct TrafficDelta {
    pub peer_id: String,
    pub upload: i64,
    pub download: i64,
}

/// Sum of the uploads of the first `n` rows.
pub open spec fn upload_sum(rows: Seq<TrafficRow>, n: int) -> int
    decreases n,
{
    if n <= 0 {
        0
    } else {
        upload_sum(rows, n - 1) + rows[n - 1].upload_bytes
    }
}

/// Sum of the downloads of the first `n` rows.
pub open spec fn download_sum(rows: Seq<TrafficRow>, n: int) -> int
    decreases n,
{
    if n <= 0 {
        0
    } else {
        download_sum(rows, n - 1) + rows[n - 1].download_bytes
    }
}

/// The peer a block is attributed to: the first non-empty peer id among the
/// first `n` rows (empty when there is none).
pub open spec fn block_peer(rows: Seq<TrafficRow>, n: int) -> Seq<char>
    decreases n,
{
    if n <= 0 {
        Seq::empty()
    } else {
        let earlier = block_peer(rows, n - 1);
        if earlier.len() == 0 {
            rows[n - 1].peer_id@
        } else {
            earlier
        }
    }
}

/// Every running total of the block fits in 64 bits (summing panics otherwise).
pub open spec fn sums_fit(rows: Seq<TrafficRow>) -> bool {
    forall|k: int|
        0 <= k <= rows.len() ==> i64::MIN <= #[trigger] upload_sum(rows, k) <= i64::MAX && i64::MIN <= download_sum(rows, k)
            <= i64::MAX
}

/// The delta of a block of rows: its uploads and downloads summed, attributed
/// to the first non-empty peer id; none (nothing to apply) when no row names a
/// peer or both sums are zero.
pub fn aggregate_traffic_rows(rows: &Vec<TrafficRow>) -> (d: Option<TrafficDelta>)
    requires
        sums_fit(rows@),
    ensures
        ({
            let n = rows@.len() as int;
            let peer = block_peer(rows@, n);
            let up = upload_sum(rows@, n);
            let down = download_sum(rows@, n);
            if peer.len() > 0 && (up != 0 || down != 0) {
                d matches Some(delta) && delta.peer_id@ == peer && delta.upload == up && delta.download == down
            } else {
                d is None
            }
        }),
{
    let mut total_up: i64 = 0;
    let mut total_down: i64 = 0;
    let mut peer_id = String::new();
    let mut i: usize = 0;
    while i < rows.len()
        invariant
            sums_fit(rows@),
            i <= rows@.len(),
            total_up == upload_sum(rows@, i as int),
            total_down == download_sum(rows@, i as int),
            peer_id@ == block_peer(rows@, i as int),
        decreases rows@.len() - i,
    {
        proof {
            assert(i64::MIN <= upload_sum(rows@, i + 1) <= i64::MAX);
            assert(i64::MIN <= download_sum(rows@, i + 1) <= i64::MAX);
        }
        let row = &rows[i];
        if peer_id.as_str().unicode_len() == 0 {
            peer_id = row.peer_id.clone();
        }
        total_up = total_up + row.upload_bytes;
        total_down = total_down + row.download_bytes;
        i = i + 1;
    }
    if peer_id.as_str().unicode_len() > 0 && (total_up != 0 || total_down != 0) {
        Some(TrafficDelta { peer_id, upload: total_up, download: total_down })
    } else {
        None
    }
}

/// The capability id under which the traffic sync service of a peer is
/// announced: "cap:storage/traffic.sync:<peer id>".
pub fn capability_id(peer_id: &str) -> (s: String)
    ensures
        s@ == "cap:storage/traffic.sync:"@ + peer_id@,
{
    let mut s = "cap:storage/traffic.sync:".to_owned();
    push_text(&mut s, peer_id);
    s
}

} // verus!
