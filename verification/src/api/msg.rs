//! The wire protocol of the configuration API: message values, the
//! length-prefixed framing they travel in, and the routing of incoming
//! messages to waiting requests.

use vstd::prelude::*;

verus! {

/// A tag as the protocol names it: either a real tag id or none.
#[derive(Debug, Clone, Copy, PartialEq, Eq, Structural, Hash)]
pub enum TagId {
    /// No tag.
    Unset,
    /// The tag with this id.
    Id(u32),
}

/// A request's correlation id.
#[derive(Debug, Clone, Copy, PartialEq, Eq, Structural, Hash)]
pub struct RequestId(pub u32);

/// A registered callback's id.
#[derive(Debug, Clone, Copy, PartialEq, Eq, Structural, Hash)]
pub struct CallbackId(pub u32);

/// A window-tiling layout a tag can use.
#[derive(Debug, Clone, Copy, PartialEq, Eq, Structural)]
pub enum Layout {
    MasterStack,
    Dwindle,
    Spiral,
    CornerTopLeft,
    CornerTopRight,
    CornerBottomLeft,
    CornerBottomRight,
}

/// A question the config client asks the compositor.
#[derive(Debug, Clone, PartialEq, Eq)]
pub enum Request {
    GetTags,
    GetTagProps { tag_id: TagId },
}

/// A message the config client sends to the compositor.
#[derive(Debug, Clone, PartialEq, Eq)]
pub enum Msg {
    AddTags { output_name: String, tag_names: Vec<String> },
    ToggleTag { tag_id: TagId },
    SwitchToTag { tag_id: TagId },
    SetLayout { tag_id: TagId, layout: Layout },
    Quit,
    Request { request_id: RequestId, request: Request },
}

/// The compositor's answer to a request.
#[derive(Debug, Clone, PartialEq, Eq)]
pub enum RequestResponse {
    Tags { tag_ids: Vec<TagId> },
    TagProps { active: Option<bool>, name: Option<String>, output_name: Option<String> },
}

/// A message arriving from the compositor: either a callback to run or
/// the answer to a request. Callback arguments travel as raw encoded
/// bytes.
#[derive(Debug, Clone, PartialEq, Eq)]
pub enum IncomingMsg {
    CallCallback { callback_id: CallbackId, args: Option<Vec<u8>> },
    RequestResponse { request_id: RequestId, response: RequestResponse },
}

/// The little-endian bytes of a 32-bit length.
pub open spec fn le32(n: u32) -> Seq<u8> {
    seq![
        (n % 0x100) as u8,
        ((n / 0x100) % 0x100) as u8,
        ((n / 0x10000) % 0x100) as u8,
        ((n / 0x1000000) % 0x100) as u8,
    ]
}

/// The 32-bit length read back from four little-endian bytes.
pub open spec fn de_le32(b: Seq<u8>) -> u32
    recommends
        b.len() == 4,
{
    (b[0] + b[1] * 0x100 + b[2] * 0x10000 + b[3] * 0x1000000) as u32
}

/// Law: reading a frame length back from its four little-endian bytes
/// yields the length that was written - framing round-trips.
pub proof fn lemma_le32_round_trip(n: u32)
    ensures
        de_le32(le32(n)) == n,
{
    assert(n % 0x100 + ((n / 0x100) % 0x100) * 0x100 + ((n / 0x10000) % 0x100) * 0x10000 + ((n
        / 0x1000000) % 0x100) * 0x1000000 == n) by (nonlinear_arith);
}

/// Frame an encoded message for the wire: its length as four
/// little-endian bytes, then the payload.
pub fn frame_message(payload: &Vec<u8>) -> (r: Vec<u8>)
    requires
        payload@.len() <= 0xFFFF_FFFF,
    ensures
        r@ == le32(payload@.len() as u32) + payload@,
{
    let n: u32 = payload.len() as u32;
    let mut r: Vec<u8> = Vec::new();
    r.push((n % 0x100) as u8);
    r.push(((n / 0x100) % 0x100) as u8);
    r.push(((n / 0x10000) % 0x100) as u8);
    r.push(((n / 0x1000000) % 0x100) as u8);
    let mut i: usize = 0;
    while i < payload.len()
        invariant
            i <= payload@.len(),
            r@ == le32(payload@.len() as u32) + payload@.take(i as int),
        decreases payload@.len() - i,
    {
        r.push(payload[i]);
        proof {
            assert(r@ =~= le32(payload@.len() as u32) + payload@.take(i + 1));
        }
        i = i + 1;
    }
    proof {
        assert(payload@.take(payload@.len() as int) =~= payload@);
    }
    r
}

/// Read a frame's length prefix.
pub fn parse_frame_len(header: &Vec<u8>) -> (r: Option<u32>)
    ensures
        header@.len() < 4 ==> r is None,
        header@.len() >= 4 ==> r == Some(de_le32(header@.take(4))),
{
    if header.len() < 4 {
        return None;
    }
    let b0 = header[0] as u32;
    let b1 = header[1] as u32;
    let b2 = header[2] as u32;
    let b3 = header[3] as u32;
    proof {
        assert(header@.take(4)[0] == header@[0]);
        assert(header@.take(4)[1] == header@[1]);
        assert(header@.take(4)[2] == header@[2]);
        assert(header@.take(4)[3] == header@[3]);
    }
    Some(b0 + b1 * 0x100 + b2 * 0x10000 + b3 * 0x1000000)
}

/// Where an incoming message goes while a request is outstanding.
#[derive(Debug, Clone, Copy, PartialEq, Eq, Structural)]
pub enum Route {
    /// Hand it to the caller now.
    Deliver,
    /// A callback arriving mid-request: keep it for the dispatch loop.
    StashCallback(CallbackId),
    /// Another request's answer: keep it for that request's reader.
    StashRequest(RequestId),
}

/// Decide where an incoming message goes. While no request is waiting,
/// everything is delivered; while one is, only its own answer comes
/// through and everything else is put aside in arrival order.
pub fn route_incoming(msg: &IncomingMsg, waiting_for: Option<RequestId>) -> (r: Route)
    ensures
        waiting_for is None ==> r == Route::Deliver,
        waiting_for matches Some(rid) ==> r == (match msg {
            IncomingMsg::CallCallback { callback_id, .. } => Route::StashCallback(*callback_id),
            IncomingMsg::RequestResponse { request_id, .. } => if *request_id == rid {
                Route::Deliver
            } else {
                Route::StashRequest(*request_id)
            },
        }),
{
    let rid = match waiting_for {
        None => {
            return Route::Deliver;
        }
        Some(rid) => rid,
    };
    match msg {
        IncomingMsg::CallCallback { callback_id, args: _ } => Route::StashCallback(*callback_id),
        IncomingMsg::RequestResponse { request_id, response: _ } => {
            if request_id.0 == rid.0 {
                Route::Deliver
            } else {
                Route::StashRequest(*request_id)
            }
        }
    }
}

/// Build the message that carries a request under a correlation id.
pub fn make_request(request_id: u32, request: Request) -> (m: Msg)
    ensures
        m == (Msg::Request { request_id: RequestId(request_id), request }),
{
    Msg::Request { request_id: RequestId(request_id), request }
}

} // verus!
