use vstd::prelude::*;
use crate::jitter::{after_add, JitterBuffer};

verus! {

/// A message of the VCP protocol, by kind.
#[derive(Debug)]
pub enum VcpMessage {
    Call { ip: String, port: u16, mimetype: String, username: String },
    AcceptCall { ip: String, port: u16, mimetype: String, username: String },
    DeclineCall { ip: String, port: u16, mimetype: String, username: String },
    Packet { packet_nr: u64, timestamp: i64, data_len: u16, data: Vec<u8>, raw_bytes: Vec<u8> },
}

/// Whether `action` spells `name`.
fn is_action(action: &String, name: &str) -> (r: bool)
    ensures
        r == (action@ == name@),
{
    let expected = String::from_str(name);
    *action == expected
}

/// A copy of a string.
fn copy_string(s: &String) -> (r: String)
    ensures
        r@ == s@,
{
    String::from_str(s.as_str())
}

/// The text with which the daemon answers a caller.
pub open spec fn call_notice_text(
    ip: Seq<char>,
    port: Seq<char>,
    mimetype: Seq<char>,
    username: Seq<char>,
) -> Seq<char> {
    "Incoming Call from "@ + ip + " port "@ + port + " with mimetype "@ + mimetype
        + " and username "@ + username
}

/// The text with which the daemon accepts a call on behalf of the local client.
pub open spec fn accept_call_text(
    ip: Seq<char>,
    port: Seq<char>,
    mimetype: Seq<char>,
    username: Seq<char>,
) -> Seq<char> {
    "ACCEPTCALL "@ + ip + " "@ + port + " "@ + mimetype + " \""@ + username + "\"\r\n"@
}

/// The `ip:port` address text of a peer.
pub open spec fn peer_address_text(ip: Seq<char>, port: Seq<char>) -> Seq<char> {
    ip + ":"@ + port
}

/// `d` starts the call that `args` describe (ip, port, mime type, user name).
pub open spec fn starts_call<A>(d: DatagramAction<A>, args: Seq<String>) -> bool {
    match d {
        DatagramAction::StartCall { ip, port, mimetype, username, notice } => {
            &&& ip@ == args[0]@
            &&& port@ == args[1]@
            &&& mimetype@ == args[2]@
            &&& username@ == args[3]@
            &&& notice@ == call_notice_text(args[0]@, args[1]@, args[2]@, args[3]@)
        },
        _ => false,
    }
}

/// `c` accepts the call that `args` describe.
pub open spec fn accepts_call(c: ControlAction, args: Seq<String>) -> bool {
    match c {
        ControlAction::Accept { ip, port, mimetype, username, response, target } => {
            &&& ip@ == args[0]@
            &&& port@ == args[1]@
            &&& mimetype@ == args[2]@
            &&& username@ == args[3]@
            &&& response@ == accept_call_text(args[0]@, args[1]@, args[2]@, args[3]@)
            &&& target@ == peer_address_text(args[0]@, args[1]@)
        },
        _ => false,
    }
}

/// `c` declines the call that `args` describe.
pub open spec fn declines_call(c: ControlAction, args: Seq<String>) -> bool {
    match c {
        ControlAction::Decline { ip, port, mimetype, username } => {
            &&& ip@ == args[0]@
            &&& port@ == args[1]@
            &&& mimetype@ == args[2]@
            &&& username@ == args[3]@
        },
        _ => false,
    }
}

/// What the datagram loop does with a completed message from a peer.
pub enum DatagramAction<A> {
    /// Start the local client for an incoming call and send `notice` back.
    StartCall { ip: String, port: String, mimetype: String, username: String, notice: String },
    /// Open a connection for the peer whose call was pending.
    OpenConnection { peer: A },
    /// A call was accepted while none was pending.
    NoPendingCall,
    /// Store the packet in the sender's connection.
    StorePacket,
    /// The action is not one the datagram loop knows.
    Invalid,
}

/// Decides what the datagram loop does with a completed message: `sender`
/// sent it, `pending` is the peer whose call waits for an answer. Returns
/// the peer that waits afterwards, and the action.
pub fn on_datagram_message<A>(action: &String, args: &Vec<String>, sender: A, pending: Option<A>) -> (r: (
    Option<A>,
    DatagramAction<A>,
))
    requires
        action@ == "CALL"@ || action@ == "ACCEPTCALL"@ ==> args@.len() >= 4,
    ensures
        action@ == "CALL"@ ==> r.0 == Some(sender) && starts_call(r.1, args@),
        action@ == "ACCEPTCALL"@ ==> r.0 is None && match pending {
            Some(p) => r.1 == DatagramAction::OpenConnection { peer: p },
            None => r.1 == DatagramAction::<A>::NoPendingCall,
        },
        action@ == "PACKET"@ ==> r.0 == pending && r.1 == DatagramAction::<A>::StorePacket,
        action@ != "CALL"@ && action@ != "ACCEPTCALL"@ && action@ != "PACKET"@ ==> r.0 == pending
            && r.1 == DatagramAction::<A>::Invalid,
{
    proof {
        reveal_strlit("CALL");
        reveal_strlit("ACCEPTCALL");
        reveal_strlit("PACKET");
        assert("CALL"@ != "ACCEPTCALL"@ && "CALL"@ != "PACKET"@ && "ACCEPTCALL"@ != "PACKET"@) by {
            assert("CALL"@.len() == 4);
            assert("PACKET"@.len() == 6);
            assert("ACCEPTCALL"@.len() == 10);
        }
    }
    if is_action(action, "CALL") {
        let ip = copy_string(&args[0]);
        let port = copy_string(&args[1]);
        let mimetype = copy_string(&args[2]);
        let username = copy_string(&args[3]);
        let mut notice = String::from_str("Incoming Call from ");
        notice.append(ip.as_str());
        notice.append(" port ");
        notice.append(port.as_str());
        notice.append(" with mimetype ");
        notice.append(mimetype.as_str());
        notice.append(" and username ");
        notice.append(username.as_str());
        (Some(sender), DatagramAction::StartCall { ip, port, mimetype, username, notice })
    } else if is_action(action, "ACCEPTCALL") {
        match pending {
            Some(p) => (None, DatagramAction::OpenConnection { peer: p }),
            None => (None, DatagramAction::NoPendingCall),
        }
    } else if is_action(action, "PACKET") {
        (pending, DatagramAction::StorePacket)
    } else {
        (pending, DatagramAction::Invalid)
    }
}

/// The delay of a packet: the time now less its time stamp (both in
/// milliseconds), cut to 16 bits.
pub open spec fn latency_of(now_ms: i64, packet_ts: u64) -> i16 {
    (now_ms - (packet_ts as i64)) as i16
}

/// Stores a completed packet in a connection's jitter buffer unless its
/// number lies below the last packet handed out; returns the packet's delay
/// when it was stored.
pub fn admit_packet(
    buffer: &mut JitterBuffer,
    packet_nr: u64,
    raw_bytes: &Vec<u8>,
    packet_ts: u64,
    now_ms: i64,
) -> (r: Option<i16>)
    requires
        packet_nr >= old(buffer)@.last_popped ==> {
            &&& old(buffer)@.buffer.contains_key(packet_nr) || old(
                buffer,
            )@.total_received_packets < u64::MAX
            &&& i64::MIN <= now_ms - (packet_ts as i64) <= i64::MAX
        },
    ensures
        packet_nr >= old(buffer)@.last_popped ==> r == Some(latency_of(now_ms, packet_ts))
            && final(buffer)@ == after_add(old(buffer)@, packet_nr, raw_bytes@),
        packet_nr < old(buffer)@.last_popped ==> r is None && final(buffer)@ == old(buffer)@,
{
    if packet_nr >= buffer.last_popped() {
        buffer.add_packet(packet_nr, raw_bytes);
        let timestamp = packet_ts as i64;
        let latency = now_ms - timestamp;
        Some(latency as i16)
    } else {
        None
    }
}

/// What the control channel does with a completed message from the local client.
pub enum ControlAction {
    /// Tell the caller at `target` (`ip:port`) that the call is accepted.
    Accept {
        ip: String,
        port: String,
        mimetype: String,
        username: String,
        response: String,
        target: String,
    },
    /// The local client declined the call.
    Decline { ip: String, port: String, mimetype: String, username: String },
    /// The action is not one the control channel knows.
    Invalid,
}

/// Decides what the control channel does with a completed message.
pub fn on_control_message(action: &String, args: &Vec<String>) -> (r: ControlAction)
    requires
        action@ == "ACCEPTCALL"@ || action@ == "DECLINECALL"@ ==> args@.len() >= 4,
    ensures
        action@ == "ACCEPTCALL"@ ==> accepts_call(r, args@),
        action@ == "DECLINECALL"@ ==> declines_call(r, args@),
        action@ != "ACCEPTCALL"@ && action@ != "DECLINECALL"@ ==> r is Invalid,
{
    proof {
        reveal_strlit("ACCEPTCALL");
        reveal_strlit("DECLINECALL");
        assert("ACCEPTCALL"@ != "DECLINECALL"@) by {
            assert("ACCEPTCALL"@[0] != "DECLINECALL"@[0]);
        }
    }
    if is_action(action, "ACCEPTCALL") {
        let ip = copy_string(&args[0]);
        let port = copy_string(&args[1]);
        let mimetype = copy_string(&args[2]);
        let username = copy_string(&args[3]);
        let mut response = String::from_str("ACCEPTCALL ");
        response.append(ip.as_str());
        response.append(" ");
        response.append(port.as_str());
        response.append(" ");
        response.append(mimetype.as_str());
        response.append(" \"");
        response.append(username.as_str());
        response.append("\"\r\n");
        let mut target = copy_string(&ip);
        target.append(":");
        target.append(port.as_str());
        ControlAction::Accept { ip, port, mimetype, username, response, target }
    } else if is_action(action, "DECLINECALL") {
        let ip = copy_string(&args[0]);
        let port = copy_string(&args[1]);
        let mimetype = copy_string(&args[2]);
        let username = copy_string(&args[3]);
        ControlAction::Decline { ip, port, mimetype, username }
    } else {
        ControlAction::Invalid
    }
}

/// Where the control channel sends the bytes it just read.
#[derive(PartialEq, Eq, Structural, Debug, Clone, Copy)]
pub enum ControlRoute {
    /// Into the receiver, to complete the client's answer to a call.
    Feed,
    /// Nowhere: first act on the completed answer.
    Answer,
    /// To every open connection, as media.
    Forward,
}

/// The control channel feeds bytes into its receiver until the client's
/// answer is done, acts on that answer once, and forwards all later bytes.
pub fn control_route(answer_done: bool, answered: bool) -> (r: ControlRoute)
    ensures
        r == (if answered {
            ControlRoute::Forward
        } else if answer_done {
            ControlRoute::Answer
        } else {
            ControlRoute::Feed
        }),
{
    if !answer_done && !answered {
        ControlRoute::Feed
    } else if !answered {
        ControlRoute::Answer
    } else {
        ControlRoute::Forward
    }
}

} // verus!
