//! How long the chunks of a request may be: the configured length, lowered
//! to fit strictly inside the window of the model the request runs on.

use vstd::prelude::*;

use crate::engine::ModelInfo;

verus! {

/// Microseconds to stay clear of a model's advertised limit.
///
/// The number the library reports is derived by inverting a frame count,
/// and the front-end that later counts frames rounds the other way, so a
/// chunk of exactly the advertised length can still come out one frame too
/// long -- and the families that enforce the limit answer that with an
/// error. Half a second covers that with room to spare.
pub const MODEL_WINDOW_MARGIN_US: u64 = 500_000;

/// The longest chunk that safely fits a model advertising `limit_us`:
/// half a second short of it, but never less than half of it, so a small
/// window stays usable.
pub open spec fn window_inside(limit_us: int) -> int {
    let a = limit_us - MODEL_WINDOW_MARGIN_US;
    let b = limit_us / 2;
    if a > b { a } else { b }
}

/// The chunk length for a request running on `model`, in microseconds,
/// when it must be lower than the configured `configured_us`: the model
/// reports a positive limit whose safe window is shorter. None keeps the
/// configured length, which is never raised: chunking is also what keeps
/// latency and memory bounded.
pub open spec fn spec_lowered_chunk(configured_us: int, limit_ms: Option<u64>) -> Option<int> {
    match limit_ms {
        Some(ms) => if ms > 0 && window_inside(ms * 1000) < configured_us {
            Some(window_inside(ms * 1000))
        } else {
            None
        },
        None => None,
    }
}

/// See [`spec_lowered_chunk`].
pub fn lowered_chunk_us(configured_us: u64, model: Option<&ModelInfo>) -> (r: Option<u64>)
    ensures
        match spec_lowered_chunk(
            configured_us as int,
            match model {
                Some(m) => m.max_audio_ms,
                None => None,
            },
        ) {
            Some(w) => r == Some(w as u64),
            None => r is None,
        },
        r matches Some(w) ==> w < configured_us,
{
    let limit_ms = match model {
        Some(m) => m.max_audio_ms,
        None => None,
    };
    match limit_ms {
        Some(ms) => {
            if ms == 0 {
                return None;
            }
            let limit_us = (ms as u128) * 1000;
            let a: i128 = (limit_us as i128) - (MODEL_WINDOW_MARGIN_US as i128);
            let b: i128 = (limit_us / 2) as i128;
            let usable: i128 = if a > b {
                a
            } else {
                b
            };
            if usable < configured_us as i128 {
                Some(usable as u64)
            } else {
                None
            }
        },
        None => None,
    }
}

/// A lowered chunk always stays strictly inside the model's window and
/// never wastes more than half of it.
pub proof fn lemma_window_inside(limit_us: int)
    requires
        limit_us > 0,
    ensures
        window_inside(limit_us) < limit_us,
        2 * window_inside(limit_us) >= limit_us - 1,
        window_inside(limit_us) >= 0,
{
}

} // verus!
