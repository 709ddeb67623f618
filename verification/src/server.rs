use vstd::prelude::*;

verus! {

/// One thing the server does on a client's socket.
#[derive(Debug)]
pub enum SocketOp {
    /// Send an event to this client.
    Emit { event: String, data: String },
    /// Add this client to rooms.
    Join { rooms: Vec<String> },
    /// Send an event to every other client in a room.
    EmitToRoom { room: String, event: String, data: String },
}

/// The operation sends `event` with `data` to the client itself.
pub open spec fn is_emit(op: SocketOp, event: Seq<char>, data: Seq<char>) -> bool {
    op matches SocketOp::Emit { event: e, data: d } && e@ == event && d@ == data
}

/// What the server does when a client connects on `/`: greet it on the `log`
/// event, put it in the `ESP` and `logs` rooms, and tell the others in `logs`
/// that someone joined.
pub fn connect_ops() -> (r: Vec<SocketOp>)
    ensures
        r@.len() == 3,
        is_emit(r@[0], "log"@, "hello there"@),
        r@[1] matches SocketOp::Join { rooms } && rooms@.len() == 2 && rooms@[0]@ == "ESP"@
            && rooms@[1]@ == "logs"@,
        r@[2] matches SocketOp::EmitToRoom { room, event, data } && room@ == "logs"@ && event@
            == "log"@ && data@ == "new challenger approaches"@,
{
    let mut rooms: Vec<String> = Vec::new();
    rooms.push(String::from_str("ESP"));
    rooms.push(String::from_str("logs"));
    let mut r: Vec<SocketOp> = Vec::new();
    r.push(SocketOp::Emit { event: String::from_str("log"), data: String::from_str("hello there") });
    r.push(SocketOp::Join { rooms });
    r.push(
        SocketOp::EmitToRoom {
            room: String::from_str("logs"),
            event: String::from_str("log"),
            data: String::from_str("new challenger approaches"),
        },
    );
    r
}

/// What the server answers a `probe` event with: `probed` on the `log` event,
/// then `testdata` on the `probe` event.
pub fn probe_ops() -> (r: Vec<SocketOp>)
    ensures
        r@.len() == 2,
        is_emit(r@[0], "log"@, "probed"@),
        is_emit(r@[1], "probe"@, "testdata"@),
{
    let mut r: Vec<SocketOp> = Vec::new();
    r.push(SocketOp::Emit { event: String::from_str("log"), data: String::from_str("probed") });
    r.push(SocketOp::Emit { event: String::from_str("probe"), data: String::from_str("testdata") });
    r
}

} // verus!
