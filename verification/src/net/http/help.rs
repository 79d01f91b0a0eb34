//! What each series says of itself.

use vstd::prelude::*;

verus! {

pub const CLIENTS_CONNECTED: &'static str =
    "Open client connections, including those that have not authenticated.";

pub const MAILBOX_DEPTH: &'static str =
    "Messages queued for the room actor. The bottleneck canary.";

pub const MAILBOX_PEAK: &'static str = "Deepest the actor mailbox has been since startup.";

pub const LAG_DISCONNECTS: &'static str =
    "Connections the room decided to drop for falling behind. Counts the decision; the \
     close itself is forced out of band. Should be zero in a healthy room.";

pub const SHARD_OVERFLOW: &'static str =
    "Frames that a fan-out shard had no room for. Should be zero: whoever one was for \
     is disconnected.";

pub const SHARD_SWEEPS: &'static str =
    "Times that every connection of a shard was closed because a broadcast was lost.";

pub const QUEUED_BYTES: &'static str = "Bytes queued for clients across all connections.";

pub const PEAK_BYTES: &'static str = "Most that has ever been queued at once.";

pub const BUDGET_BYTES: &'static str = "Ceiling on queued outbound bytes.";

pub const COMPRESSIONS: &'static str =
    "Messages compressed. Should track broadcasts, not broadcasts times connections.";

pub const IDLE_SECONDS: &'static str = "Seconds since any client last sent a message.";

pub const CHECK_IDLE_SECONDS: &'static str =
    "Seconds since any slot last registered a new location check. 0 when none ever has, \
     which `pahoa_checks_total` disambiguates.";

pub const SAVE_BYTES: &'static str = "Size of the most recent save.";

pub const SAVE_DURATION: &'static str = "Wall time of the most recent save.";

pub const SAVE_DIRTY: &'static str = "1 when state has changed since the last save started.";

pub const SLOTS: &'static str = "Player slots in this seed.";

pub const SLOTS_CONNECTED: &'static str = "Player slots with at least one open connection.";

pub const SLOTS_LOCKED: &'static str = "Slots an administrator has barred from connecting.";

pub const SLOTS_FILTERED: &'static str =
    "Slots with something filtering their traffic, their own rules or the room's.";

pub const FILTERED_FROM: &'static str =
    "Messages dropped because a slot's filter matched what it sent.";

pub const FILTERED_TO: &'static str =
    "Messages dropped because a filter matched what a slot would receive. Counted per \
     recipient connection, so one broadcast filtered for forty slots is forty, and \
     eighty if each also has a tracker attached. pahoa_filtered_from_slots_total is \
     counted once per message instead, because that is where its decision is.";

pub const CHECKS: &'static str = "Locations checked across every slot.";

pub const CHECKS_POSSIBLE: &'static str = "Locations that exist across every slot.";

pub const AUTH_FAILURES: &'static str =
    "Admin requests with a wrong or missing bearer token. Its own counter rather than a \
     status filter, because pahoa_http_requests_total{status=\"401\"} also carries the \
     tracker's gate.";

pub const AUTH_LIMITED: &'static str =
    "Admin requests answered 429 because that source had already failed too often. A \
     correct token is never refused, so this counts only sources that were guessing.";

pub const HTTP_MALFORMED: &'static str =
    "Requests that never parsed into a route, so they are counted nowhere else. A port \
     scan looks like this.";

pub const LAST_SAVE: &'static str = "Unix time of the last completed save.";

pub const CPU_SECONDS: &'static str =
    "Total user and system CPU time spent in seconds. Process-wide: it says what this \
     room costs a node, not which task is busy — pahoa_mailbox_depth is what says \
     whether the actor is the bottleneck.";

pub const START_TIME: &'static str = "Start time of the process since unix epoch in seconds.";

pub const RESIDENT: &'static str = "Resident memory size in bytes.";

pub const HTTP_REQUESTS: &'static str =
    "Requests answered on the HTTP surface, by route, method and status. WebSocket \
     upgrades are not counted here. The route is a template, so a slot's filter counts \
     under /admin/v1/slots/{slot}/filter and anything unrecognized under \"other\" — a \
     public port gets scanned, and a label taken from the request line would let a \
     scanner mint series.";

pub const HTTP_REQUEST_BYTES: &'static str =
    "Bytes received on the HTTP surface, head and body, by route.";

pub const HTTP_RESPONSE_BYTES: &'static str =
    "Bytes sent on the HTTP surface, head and body, by route. The tracker documents \
     dominate this on a large room.";

pub const PACKETS_IN: &'static str =
    "Packets received from a slot, by command. Only pairs actually observed appear.";

pub const PACKETS_PREAUTH: &'static str =
    "Packets received before the connection held a slot, by command. Connect and \
     GetDataPackage are the only two the room answers unauthenticated, so a climbing \
     count here is failed logins.";

pub const CONNECTIONS: &'static str =
    "Connections that reached a slot, by whether they negotiated permessage-deflate. \
     Per connection, not per slot: a game client may compress where a tracker on the \
     same slot does not. sum by (game, deflate) is which games' clients support it.";

pub const BYTES_IN: &'static str =
    "Wire bytes of the protocol messages a slot sent, as framed and compressed on the \
     socket. Pings, pongs and undecodable frames are not included: the reader that sees \
     those bytes does not know whose they are.";

pub const BYTES_IN_PREAUTH: &'static str =
    "Wire bytes of messages read before the connection held a slot. A Connect arrives \
     here, so this climbing on its own is login attempts.";

pub const PACKETS_OUT: &'static str =
    "Packets the room emitted, by command. Counted once per message whatever its \
     audience, so one broadcast to two thousand slots is one; pahoa_frames_out_total is \
     what fan-out made of it.";

pub const FRAMES_OUT: &'static str =
    "WebSocket frames handed to a slot's writers. Per recipient connection, so a slot \
     with a game and two trackers counts three for a broadcast all three receive.";

pub const BYTES_OUT: &'static str =
    "Bytes handed to a slot's writers, after compression. Per recipient connection, \
     like pahoa_frames_out_total. This is what fills the outbound budget.";

pub const FRAMES_OUT_PREAUTH: &'static str = "Frames sent to connections that held no slot yet.";

pub const BYTES_OUT_PREAUTH: &'static str =
    "Bytes sent to connections that held no slot yet. RoomInfo goes to every connection \
     that opens, and a DataPackage answered here can be megabytes.";

pub const FILTERED: &'static str =
    "Messages a filter dropped, by slot, direction and kind. Sums to \
     pahoa_filtered_from_slots_total and pahoa_filtered_to_slots_total, which are this \
     same table added up. The two directions have different denominators: from_slot is \
     once per message, where the room makes the decision, and to_slot is once per \
     recipient connection, matching pahoa_frames_out_total, so one chat line filtered \
     for forty slots is forty and eighty if each also has a tracker.";

pub const REDUNDANT: &'static str =
    "Requests for what the room had already done: a location that the slot had checked, \
     or a hint that existed. Read it as a ratio against pahoa_packets_in_total.";

} // verus!
