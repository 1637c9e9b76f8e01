//! The feed ingestor's decisions: what one inbound frame does to the
//! buffer, and the subscription request that opens the stream.
//!
//! The surrounding task owns the connection and the socket I/O; it hands
//! every inbound frame to `feed_step` and performs the action handed
//! back. A tick frame is decoded and appended; a malformed tick is
//! dropped with its decode error, never ending the stream; a ping is
//! answered with a pong carrying the same payload before reading on.

use crate::buffer::{evict_push, TickBuffer};
use crate::tick::{decode_tick, spec_decode_error, spec_raw_ok, DecodeError, RawTick, Tick};
use crate::tick::{spec_parse_price, spec_parse_side};
use crate::timestamp::spec_parse_rfc3339;
use vstd::arithmetic::div_mod::{
    lemma_div_pos_is_pos, lemma_fundamental_div_mod, lemma_mod_division_less_than_divisor,
};
use vstd::prelude::*;
use vstd::string::StringExecFns;

verus! {

/// The tick a well-formed raw record decodes to.
pub open spec fn spec_decode(raw: RawTick) -> Tick {
    Tick {
        product_id: raw.product_id,
        price: spec_parse_price(raw.price@)->Some_0,
        side: spec_parse_side(raw.side@)->Some_0,
        time_ms: spec_parse_rfc3339(raw.time@)->Some_0,
        sequence: raw.sequence,
        best_bid: spec_parse_price(raw.best_bid@)->Some_0,
        best_ask: spec_parse_price(raw.best_ask@)->Some_0,
        high_24h: spec_parse_price(raw.high_24h@)->Some_0,
        low_24h: spec_parse_price(raw.low_24h@)->Some_0,
        volume_24h: spec_parse_price(raw.volume_24h@)->Some_0,
    }
}

/// One inbound frame, as the transport hands it over: a tick record with
/// its fields still text, a keep-alive ping, or anything else.
pub enum FeedFrame {
    Text(RawTick),
    Ping(Vec<u8>),
    Other,
}

/// What the ingestion task must do after a step.
#[derive(Debug)]
pub enum FeedAction {
    /// The tick was appended; read on.
    Appended,
    /// The record was malformed and dropped; read on.
    Dropped(DecodeError),
    /// Send a pong with exactly this payload before reading on.
    Pong(Vec<u8>),
    /// Nothing to do; read on.
    Ignored,
}

/// Feeds one inbound frame into the buffer.
///
/// A well-formed tick record is appended to its instrument's ring; a
/// malformed one changes nothing and is reported dropped; a ping changes
/// nothing and demands a pong with the same payload; any other frame is
/// ignored. The buffer never loses other instruments' data.
pub fn feed_step(buf: &mut TickBuffer, frame: FeedFrame) -> (a: FeedAction)
    requires
        old(buf).wf(),
    ensures
        final(buf).wf(),
        final(buf).spec_cap() == old(buf).spec_cap(),
        (match frame {
            FeedFrame::Text(raw) => {
                if spec_raw_ok(raw) {
                    &&& a is Appended
                    &&& final(buf).spec_ticks(raw.product_id@) == evict_push(
                        old(buf).spec_ticks(raw.product_id@),
                        spec_decode(raw),
                        old(buf).spec_cap(),
                    )
                    &&& (forall|id: Seq<char>|
                        id != raw.product_id@ ==> #[trigger] final(buf).spec_ticks(id) == old(
                            buf,
                        ).spec_ticks(id))
                } else {
                    &&& a == FeedAction::Dropped(spec_decode_error(raw))
                    &&& *final(buf) == *old(buf)
                }
            },
            FeedFrame::Ping(payload) => a == FeedAction::Pong(payload) && *final(buf) == *old(
                buf,
            ),
            FeedFrame::Other => a == FeedAction::Ignored && *final(buf) == *old(buf),
        }),
{
    match frame {
        FeedFrame::Text(raw) => {
            let ghost graw = raw;
            match decode_tick(raw) {
                Ok(tick) => {
                    proof {
                        assert(tick == spec_decode(graw));
                    }
                    buf.append(tick);
                    FeedAction::Appended
                },
                Err(e) => FeedAction::Dropped(e),
            }
        },
        FeedFrame::Ping(payload) => FeedAction::Pong(payload),
        FeedFrame::Other => FeedAction::Ignored,
    }
}

/// The first pause after a connection failure, in milliseconds.
pub const BACKOFF_INITIAL_MS: u64 = 1000;

/// The longest pause between reconnection attempts.
pub const BACKOFF_MAX_MS: u64 = 60000;

/// The pause after one more failure: twice the current pause, capped.
/// The connection runner sleeps this long (with jitter) and tries again
/// instead of dying silently; a successful connection resets the pause.
pub fn next_backoff(current_ms: u64) -> (r: u64)
    requires
        current_ms <= BACKOFF_MAX_MS,
    ensures
        r == (if 2 * current_ms <= BACKOFF_MAX_MS {
            2 * current_ms
        } else {
            BACKOFF_MAX_MS as int
        }),
{
    if 2 * current_ms <= BACKOFF_MAX_MS {
        2 * current_ms
    } else {
        BACKOFF_MAX_MS
    }
}

/// The pause actually slept: the base spread over its upper half by the
/// given randomness, so stampeding reconnections drift apart.
pub fn backoff_with_jitter(base_ms: u64, rand: u64) -> (r: u64)
    ensures
        base_ms / 2 <= r <= base_ms,
        r == base_ms / 2 + (rand as int) % (base_ms - base_ms / 2 + 1),
{
    proof {
        lemma_fundamental_div_mod(base_ms as int, 2);
        lemma_mod_division_less_than_divisor(base_ms as int, 2);
        lemma_mod_division_less_than_divisor(
            rand as int,
            base_ms - base_ms / 2 + 1,
        );
        lemma_div_pos_is_pos(rand as int, base_ms - base_ms / 2 + 1);
    }
    let half = base_ms / 2;
    half + rand % (base_ms - half + 1)
}

/// A plain symbol: printable ASCII without quotes or backslashes, so it
/// can stand in a JSON string without escaping.
pub open spec fn plain_symbol(s: Seq<char>) -> bool {
    forall|i: int|
        0 <= i < s.len() ==> {
            let c = (#[trigger] s[i]) as u32;
            32 <= c && c <= 126 && c != 34 && c != 92
        }
}

pub open spec fn quoted(p: Seq<char>) -> Seq<char> {
    "\""@ + p + "\""@
}

/// The product identifiers, each in quotes, joined with commas.
pub open spec fn join_quoted(ps: Seq<Seq<char>>) -> Seq<char>
    decreases ps.len(),
{
    if ps.len() == 0 {
        Seq::empty()
    } else if ps.len() == 1 {
        quoted(ps[0])
    } else {
        join_quoted(ps.drop_last()) + ","@ + quoted(ps.last())
    }
}

/// The one subscription message that opens the stream: a ticker-channel
/// subscribe naming every watched product.
pub open spec fn spec_subscription(ps: Seq<Seq<char>>) -> Seq<char> {
    "{\"type\":\"subscribe\",\"channels\":[\"ticker\"],\"product_ids\":["@ + join_quoted(ps)
        + "]}"@
}

/// Builds the subscription request naming all products, or nothing if a
/// product identifier cannot stand in a JSON string unescaped.
pub fn subscription_request(products: &Vec<String>) -> (r: Option<String>)
    ensures
        (r is Some) == (forall|i: int|
            0 <= i < products@.len() ==> plain_symbol(#[trigger] products@[i]@)),
        (r matches Some(s) ==> s@ == spec_subscription(
            products@.map_values(|p: String| p@),
        )),
{
    let ghost views = products@.map_values(|p: String| p@);
    // Validate every product first.
    let n = products.len();
    let mut i: usize = 0;
    while i < n
        invariant
            n == products@.len(),
            i <= n,
            forall|j: int| 0 <= j < i ==> plain_symbol(#[trigger] products@[j]@),
        decreases n - i,
    {
        let p = &products[i];
        let m = p.as_str().unicode_len();
        let mut k: usize = 0;
        while k < m
            invariant
                i < n == products@.len(),
                p == &products@[i as int],
                m == p@.len(),
                k <= m,
                forall|j: int|
                    0 <= j < k ==> {
                        let c = (#[trigger] p@[j]) as u32;
                        32 <= c && c <= 126 && c != 34 && c != 92
                    },
            decreases m - k,
        {
            let c = p.as_str().get_char(k);
            let cu: u32 = c as u32;
            if cu < 32 || cu > 126 || cu == 34 || cu == 92 {
                return None;
            }
            k = k + 1;
        }
        i = i + 1;
    }
    proof {
        reveal_strlit("{\"type\":\"subscribe\",\"channels\":[\"ticker\"],\"product_ids\":[");
        reveal_strlit("]}");
        reveal_strlit("\"");
        reveal_strlit(",");
    }
    let mut out = String::from_str(
        "{\"type\":\"subscribe\",\"channels\":[\"ticker\"],\"product_ids\":[",
    );
    let ghost prefix = out@;
    let mut i: usize = 0;
    while i < n
        invariant
            n == products@.len(),
            views == products@.map_values(|p: String| p@),
            i <= n,
            prefix == ("{\"type\":\"subscribe\",\"channels\":[\"ticker\"],\"product_ids\":["@),
            out@ == prefix + join_quoted(views.subrange(0, i as int)),
            "\""@.len() == 1,
            ","@.len() == 1,
        decreases n - i,
    {
        if i > 0 {
            out.append(",");
        }
        out.append("\"");
        out.append(products[i].as_str());
        out.append("\"");
        proof {
            let sub = views.subrange(0, i + 1);
            assert(sub.drop_last() =~= views.subrange(0, i as int));
            assert(sub.last() == products@[i as int]@);
            if i == 0 {
                assert(join_quoted(sub) == quoted(products@[0]@));
            }
            assert(out@ =~= prefix + join_quoted(views.subrange(0, i + 1)));
        }
        i = i + 1;
    }
    proof {
        assert(views.subrange(0, n as int) =~= views);
    }
    let out = out.concat("]}");
    assert(out@ =~= spec_subscription(views));
    Some(out)
}

} // verus!
