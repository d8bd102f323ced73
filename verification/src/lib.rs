//! Decoding of RTCM 2.x and 3.x differential GNSS streams: bit-level field
//! extraction, CRC-24Q frame checks, frame synchronisation, message decoding
//! into raw (unscaled) integer records, and the stream context that keeps the
//! reference station description and broadcast ephemerides for RINEX output.

pub mod util;
pub mod rtcm;
pub mod rinex;
pub mod gnss;

use vstd::prelude::*;
use crate::rtcm::{RtcmContext, RtcmError, RtcmMessageType};
use crate::rtcm::rtcm3::{Rtcm3Error, Rtcm3MessageType, Rtcm3Parser, Rtcm3ParserState, is_frame, lemma_frame_delivered, message_decoded};

verus! {

/// Why a conversion step failed.
#[derive(Debug, Clone)]
pub enum Error {
    /// The RTCM stream could not be processed.
    Rtcm(RtcmError),
    /// Writing the RINEX output failed; the text says why.
    Rinex(String),
    /// Reading or writing failed; the text says why.
    Io(String),
    /// Anything else.
    Other(String),
}

/// A new stream context, with both synchronisers looking for a preamble and
/// nothing stored.
pub fn init_rtcm() -> (r: Result<RtcmContext, Error>)
    ensures
        r matches Ok(c) && {
            &&& c.wf()
            &&& c.rtcm2_parser.sync_state == rtcm::rtcm2::SyncState::FindPreamble
            &&& c.rtcm2_parser.buffer@ == Seq::<u8>::empty()
            &&& c.rtcm3_parser.state == rtcm::rtcm3::Rtcm3ParserState::FindPreamble
            &&& c.rtcm3_parser.buffer@ == Seq::<u8>::empty()
            &&& c.last_message_type is None
            &&& c.gps_nav_data@ == Map::<u8, Vec<rtcm::rtcm3::Rtcm3MessageType>>::empty()
            &&& c.glo_nav_data@ == Map::<u8, Vec<rtcm::rtcm3::Rtcm3MessageType>>::empty()
            &&& c.station_id == 0
            &&& c.station_pos is None
            &&& c.antenna_height is None
            &&& c.antenna_descriptor is None
            &&& c.antenna_serial is None
            &&& c.receiver_type is None
            &&& c.firmware_version is None
            &&& c.receiver_serial is None
        },
{
    match RtcmContext::new() {
        Ok(c) => Ok(c),
        Err(e) => Err(Error::Rtcm(e)),
    }
}

/// Feeds one byte of an RTCM stream to `ctx`; returns the message it
/// completes, if any, and reports a stream error as [`Error::Rtcm`].
pub fn process_rtcm_data(ctx: &mut RtcmContext, data: u8) -> (r: Result<Option<RtcmMessageType>, Error>)
    requires
        old(ctx).wf(),
    ensures
        exists|inner: Result<Option<RtcmMessageType>, RtcmError>| {
            &&& #[trigger] RtcmContext::process_byte_post(*old(ctx), *final(ctx), data, inner)
            &&& match inner {
                Ok(m) => r == Ok::<Option<RtcmMessageType>, Error>(m),
                Err(e) => r == Err::<Option<RtcmMessageType>, Error>(Error::Rtcm(e)),
            }
        },
{
    match ctx.process_byte(data) {
        Ok(m) => Ok(m),
        Err(e) => Err(Error::Rtcm(e)),
    }
}

/// Whether feeding the bytes `data` one at a time takes the context through
/// `states` (from `states[0]` on), each call giving the matching entry of
/// `results`.
pub open spec fn fed(
    states: Seq<RtcmContext>,
    data: Seq<u8>,
    results: Seq<Result<Option<RtcmMessageType>, RtcmError>>,
) -> bool {
    &&& states.len() == data.len() + 1
    &&& results.len() == data.len()
    &&& forall|i: int| 0 <= i < data.len() ==> #[trigger] RtcmContext::process_byte_post(
        states[i],
        states[i + 1],
        data[i],
        results[i],
    )
}

/// The messages that `results` delivered, in order.
pub open spec fn delivered(results: Seq<Result<Option<RtcmMessageType>, RtcmError>>) -> Seq<RtcmMessageType>
    decreases results.len(),
{
    if results.len() == 0 {
        Seq::empty()
    } else {
        match results.last() {
            Ok(Some(m)) => delivered(results.drop_last()).push(m),
            _ => delivered(results.drop_last()),
        }
    }
}

/// Feeds `data` to `ctx` a byte at a time, up to the first byte that gives
/// an error, which is returned; otherwise returns the messages the bytes
/// completed, in order.
pub fn process_rtcm_bytes(ctx: &mut RtcmContext, data: &[u8]) -> (r: Result<Vec<RtcmMessageType>, Error>)
    requires
        old(ctx).wf(),
    ensures
        final(ctx).wf(),
        r matches Ok(msgs) ==> exists|states: Seq<RtcmContext>, results: Seq<Result<Option<RtcmMessageType>, RtcmError>>| {
            &&& #[trigger] fed(states, data@, results)
            &&& states[0] == *old(ctx)
            &&& states.last() == *final(ctx)
            &&& forall|i: int| 0 <= i < results.len() ==> results[i] is Ok
            &&& msgs@ == delivered(results)
        },
        r matches Err(err) ==> exists|k: int, states: Seq<RtcmContext>, results: Seq<Result<Option<RtcmMessageType>, RtcmError>>| {
            &&& 0 <= k < data@.len()
            &&& #[trigger] fed(states, data@.take(k + 1), results)
            &&& states[0] == *old(ctx)
            &&& states.last() == *final(ctx)
            &&& forall|i: int| 0 <= i < k ==> results[i] is Ok
            &&& results[k] matches Err(e) && err == Error::Rtcm(e)
        },
{
    let ghost mut states: Seq<RtcmContext> = seq![*ctx];
    let ghost mut results: Seq<Result<Option<RtcmMessageType>, RtcmError>> = Seq::empty();
    let mut msgs: Vec<RtcmMessageType> = Vec::new();
    let mut i: usize = 0;
    while i < data.len()
        invariant
            i <= data@.len(),
            ctx.wf(),
            fed(states, data@.take(i as int), results),
            states[0] == *old(ctx),
            states.last() == *ctx,
            forall|j: int| 0 <= j < results.len() ==> results[j] is Ok,
            msgs@ == delivered(results),
        decreases data@.len() - i,
    {
        let ghost prev_results = results;
        let r = ctx.process_byte(data[i]);
        proof {
            states = states.push(*ctx);
            results = results.push(r);
            assert(results.drop_last() =~= prev_results);
            assert(data@.take(i + 1).drop_last() =~= data@.take(i as int));
            assert forall|j: int| 0 <= j < i + 1 implies #[trigger] RtcmContext::process_byte_post(
                states[j],
                states[j + 1],
                data@.take(i + 1)[j],
                results[j],
            ) by {
                if j < i {
                    assert(data@.take(i + 1)[j] == data@.take(i as int)[j]);
                }
            }
        }
        match r {
            Ok(Some(m)) => {
                msgs.push(m);
            },
            Ok(None) => {},
            Err(e) => {
                proof {
                    let k = i as int;
                    assert(fed(states, data@.take(k + 1), results));
                    assert(results[k] matches Err(e2) && Error::Rtcm(e) == Error::Rtcm(e2));
                }
                return Err(Error::Rtcm(e));
            },
        }
        i = i + 1;
    }
    proof {
        assert(data@.take(data@.len() as int) =~= data@);
    }
    Ok(msgs)
}

/// Fed to a context whose RTCM 3 synchroniser is looking for a preamble, one
/// whole RTCM 3 frame gives no RTCM 3 result before its last byte, and its
/// last byte gives the frame's decoding: the message, which the context
/// absorbs, or the error that decoding it reports.
pub proof fn lemma_context_frame_delivered(
    states: Seq<RtcmContext>,
    f: Seq<u8>,
    results: Seq<Result<Option<RtcmMessageType>, RtcmError>>,
)
    requires
        fed(states, f, results),
        is_frame(f),
        states[0].rtcm3_parser.state == Rtcm3ParserState::FindPreamble,
    ensures
        forall|j: int| 0 <= j < f.len() - 1 ==> RtcmContext::rtcm3_part(#[trigger] results[j]) == Ok::<
            Option<Rtcm3MessageType>,
            Rtcm3Error,
        >(None),
        results.last() matches Ok(Some(RtcmMessageType::Rtcm3(_))) || results.last() matches Err(
            RtcmError::Rtcm3Error(_),
        ),
        results.last() matches Ok(Some(RtcmMessageType::Rtcm3(m))) ==> message_decoded(f, Ok(m))
            && RtcmContext::absorbed(states[f.len() - 1], states[f.len() as int], m),
        results.last() matches Err(RtcmError::Rtcm3Error(e)) ==> message_decoded(f, Err(e)),
{
    let ps = Seq::new(states.len(), |i: int| states[i].rtcm3_parser);
    let rs = Seq::new(results.len(), |i: int| RtcmContext::rtcm3_part(results[i]));
    assert forall|j: int| 0 <= j < f.len() implies #[trigger] Rtcm3Parser::process_byte_post(
        ps[j],
        ps[j + 1],
        f[j],
        rs[j],
    ) by {
        assert(RtcmContext::process_byte_post(states[j], states[j + 1], f[j], results[j]));
    }
    lemma_frame_delivered(ps, rs, f);
    let n = f.len() as int;
    assert(rs.last() == RtcmContext::rtcm3_part(results.last()));
    assert(RtcmContext::process_byte_post(states[n - 1], states[n - 1 + 1], f[n - 1], results[n - 1]));
    assert forall|j: int| 0 <= j < f.len() - 1 implies RtcmContext::rtcm3_part(#[trigger] results[j]) == Ok::<
        Option<Rtcm3MessageType>,
        Rtcm3Error,
    >(None) by {
        assert(rs[j] == RtcmContext::rtcm3_part(results[j]));
    }
}

} // verus!
