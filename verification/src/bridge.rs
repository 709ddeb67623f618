use vstd::prelude::*;

use crate::daemon_types::{CringeEvt, EvtType, CRINGED_TMP_PATH};

verus! {

/// The path of the Unix socket on which events are handed to clients.
pub fn events_socket_path() -> (r: String)
    ensures
        r@ == CRINGED_TMP_PATH@ + "/events.sock"@,
{
    let mut r = String::from_str(CRINGED_TMP_PATH);
    r.append("/events.sock");
    r
}

/// The event a client receives first when it connects: a board boot on bank 0
/// at time 0.
pub fn hello_event() -> (r: CringeEvt)
    ensures
        r == (CringeEvt { io_bank_num: 0, event_type: EvtType::BoardBoot, timestamp_ms: 0 }),
{
    CringeEvt { io_bank_num: 0, event_type: EvtType::BoardBoot, timestamp_ms: 0 }
}

/// One message on the events socket: the encoded event followed by a newline.
pub fn frame_line(payload: &[u8]) -> (r: Vec<u8>)
    ensures
        r@ == payload@.push(10u8),
{
    let mut r: Vec<u8> = Vec::new();
    let n = payload.len();
    let mut i: usize = 0;
    while i < n
        invariant
            n == payload@.len(),
            0 <= i <= n,
            r@ == payload@.take(i as int),
        decreases n - i,
    {
        r.push(payload[i]);
        assert(payload@.take(i + 1) =~= payload@.take(i as int).push(payload@[i as int]));
        i = i + 1;
    }
    assert(payload@.take(n as int) =~= payload@);
    r.push(10u8);
    r
}

} // verus!
