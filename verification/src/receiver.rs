use vstd::prelude::*;
use vstd::utf8::{decode_utf8, valid_utf8};
use crate::bytes::{append_bytes, be_decode, be_value, copy_bytes, lemma_be_value_bound, pow256};
use crate::receiver_laws::{law_position_in_backlog, law_run_stops};
use crate::text::{arg_text, utf8_lossy_to_string, utf8_to_string};

verus! {

/// Separates the action from its arguments, and arguments from each other.
pub const SPACE: u8 = 0x20;

/// Ends the action name of a packet message.
pub const SLASH: u8 = 0x2f;

/// Opens and closes a quoted argument.
pub const QUOTE: u8 = 0x22;

/// Ends a text message (and is skipped before an action name).
pub const NEWLINE: u8 = 0x0a;

/// Ends a text message.
pub const CARRIAGE_RETURN: u8 = 0x0d;

/// The part of a message the receiver is reading.
///
/// A message is `<action>(" "<arg>)*` ended by a line break, or
/// `<action>"/"<nr:8><ts:8><len:2><data:len>` for a packet.
#[derive(PartialEq, Eq, Structural, Debug, Clone, Copy)]
pub enum VcpReceptionState {
    Action,
    UnQuotedArg,
    QuotedArg,
    PacketNr,
    PacketLen,
    PacketData,
    PacketTS,
    Done,
}

/// The stage of a call: requested, accepted or declined.
pub enum CallState {
    Accept,
    Decline,
    Request,
}

/// Frames one VCP message at a time out of a stream of bytes.
pub struct VcpReceiver {
    final_action: Vec<u8>,
    backlog: Vec<u8>,
    currently_parsing: Vec<u8>,
    parsing_pos: usize,
    state: VcpReceptionState,
    packetlen: u16,
    packet_data: Vec<u8>,
    packet_ts: u64,
    packet_nr: u64,
    action_name: String,
    args: Vec<String>,
}

/// The abstract state of a receiver.
#[verifier::ext_equal]
pub struct ReceiverView {
    /// The framed bytes of the current message.
    pub final_action: Seq<u8>,
    /// The bytes kept since the last reset; the first `parsing_pos` of them are read.
    pub backlog: Seq<u8>,
    /// The token being read.
    pub currently_parsing: Seq<u8>,
    pub parsing_pos: int,
    pub state: VcpReceptionState,
    pub packet_len: u16,
    /// The packet data received since it was last taken.
    pub packet_data: Seq<u8>,
    pub packet_ts: u64,
    pub packet_nr: u64,
    pub action_name: Seq<char>,
    pub args: Seq<Seq<char>>,
}

impl View for VcpReceiver {
    type V = ReceiverView;

    closed spec fn view(&self) -> ReceiverView {
        ReceiverView {
            final_action: self.final_action@,
            backlog: self.backlog@,
            currently_parsing: self.currently_parsing@,
            parsing_pos: self.parsing_pos as int,
            state: self.state,
            packet_len: self.packetlen,
            packet_data: self.packet_data@,
            packet_ts: self.packet_ts,
            packet_nr: self.packet_nr,
            action_name: self.action_name@,
            args: self.args@.map_values(|a: String| a@),
        }
    }
}

/// A receiver view is one that a receiver can be in: its position lies
/// within its backlog.
pub open spec fn valid_view(v: ReceiverView) -> bool {
    0 <= v.parsing_pos <= v.backlog.len()
}

/// The receiver state with nothing read, before `bytes` are looked at.
pub open spec fn initial_view(bytes: Seq<u8>) -> ReceiverView {
    ReceiverView {
        final_action: Seq::empty(),
        backlog: bytes,
        currently_parsing: Seq::empty(),
        parsing_pos: 0,
        state: VcpReceptionState::Action,
        packet_len: 0,
        packet_data: Seq::empty(),
        packet_ts: 0,
        packet_nr: 0,
        action_name: Seq::empty(),
        args: Seq::empty(),
    }
}

/// The arguments after one more argument token was read, if it is not empty.
pub open spec fn push_nonempty_arg(args: Seq<Seq<char>>, token: Seq<u8>) -> Seq<Seq<char>> {
    if token.len() > 0 {
        args.push(arg_text(token))
    } else {
        args
    }
}

/// What the receiver does with one byte `b`, apart from advancing its position.
pub open spec fn react(v: ReceiverView, b: u8) -> ReceiverView {
    let cp = v.currently_parsing;
    let pushed = cp.push(b);
    match v.state {
        VcpReceptionState::Action => {
            if b == SPACE {
                if valid_utf8(cp) {
                    ReceiverView {
                        final_action: v.final_action + cp + seq![SPACE],
                        action_name: decode_utf8(cp),
                        currently_parsing: Seq::empty(),
                        state: VcpReceptionState::UnQuotedArg,
                        ..v
                    }
                } else {
                    ReceiverView { currently_parsing: Seq::empty(), ..v }
                }
            } else if b == SLASH {
                ReceiverView {
                    final_action: v.final_action + cp + seq![SLASH],
                    action_name: "PACKET"@,
                    currently_parsing: Seq::empty(),
                    state: VcpReceptionState::PacketNr,
                    ..v
                }
            } else if b == NEWLINE {
                v
            } else {
                ReceiverView { currently_parsing: pushed, ..v }
            }
        },
        VcpReceptionState::PacketNr => {
            if pushed.len() == 8 {
                ReceiverView {
                    final_action: v.final_action + pushed,
                    packet_nr: be_value(pushed) as u64,
                    currently_parsing: Seq::empty(),
                    state: VcpReceptionState::PacketTS,
                    ..v
                }
            } else {
                ReceiverView { currently_parsing: pushed, ..v }
            }
        },
        VcpReceptionState::PacketLen => {
            if pushed.len() == 2 {
                let len = be_value(pushed) as u16;
                ReceiverView {
                    final_action: v.final_action + pushed,
                    packet_len: len,
                    currently_parsing: Seq::empty(),
                    packet_data: if len == 0 { Seq::empty() } else { v.packet_data },
                    state: if len == 0 { VcpReceptionState::Done } else { VcpReceptionState::PacketData },
                    ..v
                }
            } else {
                ReceiverView { currently_parsing: pushed, ..v }
            }
        },
        VcpReceptionState::PacketTS => {
            if pushed.len() == 8 {
                ReceiverView {
                    final_action: v.final_action + pushed,
                    packet_ts: be_value(pushed) as u64,
                    currently_parsing: Seq::empty(),
                    state: VcpReceptionState::PacketLen,
                    ..v
                }
            } else {
                ReceiverView { currently_parsing: pushed, ..v }
            }
        },
        VcpReceptionState::PacketData => {
            if pushed.len() == v.packet_len {
                ReceiverView {
                    packet_data: v.packet_data.push(b),
                    final_action: v.final_action + pushed,
                    currently_parsing: Seq::empty(),
                    state: VcpReceptionState::Done,
                    ..v
                }
            } else {
                ReceiverView { packet_data: v.packet_data.push(b), currently_parsing: pushed, ..v }
            }
        },
        VcpReceptionState::UnQuotedArg => {
            if b == SPACE {
                ReceiverView {
                    final_action: v.final_action + cp + seq![SPACE],
                    args: v.args.push(arg_text(cp)),
                    currently_parsing: Seq::empty(),
                    ..v
                }
            } else if b == QUOTE {
                ReceiverView {
                    final_action: v.final_action + cp,
                    args: push_nonempty_arg(v.args, cp),
                    currently_parsing: seq![QUOTE],
                    state: VcpReceptionState::QuotedArg,
                    ..v
                }
            } else if b == CARRIAGE_RETURN || b == NEWLINE {
                ReceiverView {
                    final_action: v.final_action + cp,
                    args: push_nonempty_arg(v.args, cp),
                    currently_parsing: Seq::empty(),
                    state: VcpReceptionState::Done,
                    ..v
                }
            } else {
                ReceiverView { currently_parsing: pushed, ..v }
            }
        },
        VcpReceptionState::QuotedArg => {
            if b == QUOTE {
                ReceiverView {
                    final_action: v.final_action + pushed,
                    args: v.args.push(arg_text(pushed)),
                    currently_parsing: Seq::empty(),
                    state: VcpReceptionState::UnQuotedArg,
                    ..v
                }
            } else {
                ReceiverView { currently_parsing: pushed, ..v }
            }
        },
        VcpReceptionState::Done => v,
    }
}

/// One step of the receiver: read the byte at the current position.
pub open spec fn step(v: ReceiverView) -> ReceiverView {
    ReceiverView { parsing_pos: v.parsing_pos + 1, ..react(v, v.backlog[v.parsing_pos]) }
}

/// Whether the receiver would read another byte.
pub open spec fn can_step(v: ReceiverView) -> bool {
    0 <= v.parsing_pos < v.backlog.len() && v.state != VcpReceptionState::Done
}

/// Reads bytes until the message is done or the backlog is used up.
pub open spec fn run(v: ReceiverView) -> ReceiverView
    decreases v.backlog.len() - v.parsing_pos,
{
    if can_step(v) {
        run(step(v))
    } else {
        v
    }
}

/// The receiver after `bytes` were appended to its backlog (nothing read yet).
pub open spec fn with_more(v: ReceiverView, bytes: Seq<u8>) -> ReceiverView {
    ReceiverView { backlog: v.backlog + bytes, ..v }
}

/// The receiver after `reset`: a new receiver on the unread rest of the backlog.
pub open spec fn reset_view(v: ReceiverView) -> ReceiverView {
    initial_view(
        if v.parsing_pos < v.backlog.len() {
            v.backlog.subrange(v.parsing_pos, v.backlog.len() as int)
        } else {
            Seq::empty()
        },
    )
}

impl VcpReceiver {
    /// A receiver that has read as much of `bytes` as one message takes.
    pub fn new(bytes: Vec<u8>) -> (r: VcpReceiver)
        ensures
            r@ == run(initial_view(bytes@)),
            valid_view(r@),
            !can_step(r@),
    {
        let mut r = VcpReceiver {
            parsing_pos: 0,
            backlog: bytes,
            currently_parsing: Vec::new(),
            state: VcpReceptionState::Action,
            final_action: Vec::new(),
            packetlen: 0,
            packet_data: Vec::new(),
            action_name: String::new(),
            packet_ts: 0,
            packet_nr: 0,
            args: Vec::new(),
        };
        assert(r@ =~= initial_view(bytes@));
        r.run_to_end();
        proof {
            law_position_in_backlog(initial_view(bytes@), Seq::empty());
            law_run_stops(initial_view(bytes@));
        }
        r
    }

    /// Reads bytes until the message is done or the backlog is used up.
    fn run_to_end(&mut self)
        ensures
            final(self)@ == run(old(self)@),
    {
        while self.has_bytes() && self.state != VcpReceptionState::Done
            invariant
                run(self@) == run(old(self)@),
                0 <= self@.parsing_pos,
            decreases self@.backlog.len() - self@.parsing_pos,
        {
            self.consume();
        }
    }

    fn has_bytes(&self) -> (r: bool)
        ensures
            r == (self@.parsing_pos < self@.backlog.len()),
    {
        return self.parsing_pos < self.backlog.len();
    }

    fn cur_byte(&self) -> (r: u8)
        requires
            self@.parsing_pos < self@.backlog.len(),
        ensures
            r == self@.backlog[self@.parsing_pos],
    {
        return self.backlog[self.parsing_pos];
    }

    /// Reads the byte at the current position.
    pub fn consume(&mut self)
        requires
            old(self)@.parsing_pos < old(self)@.backlog.len(),
        ensures
            final(self)@ == step(old(self)@),
            valid_view(final(self)@),
    {
        let b = self.cur_byte();
        let pos = self.parsing_pos;
        let backlog_len = self.backlog.len();
        let ghost v = self@;
        let ghost cp = self@.currently_parsing;
        let next = match self.state {
            VcpReceptionState::Action => {
                if b == SPACE {
                    let name_bytes = copy_bytes(self.currently_parsing.as_slice());
                    match utf8_to_string(name_bytes) {
                        Some(name) => {
                            append_bytes(&mut self.final_action, self.currently_parsing.as_slice());
                            self.final_action.push(SPACE);
                            self.action_name = name;
                            self.currently_parsing.clear();
                            VcpReceptionState::UnQuotedArg
                        },
                        None => {
                            self.currently_parsing.clear();
                            VcpReceptionState::Action
                        },
                    }
                } else if b == SLASH {
                    append_bytes(&mut self.final_action, self.currently_parsing.as_slice());
                    self.final_action.push(SLASH);
                    self.action_name = String::from_str("PACKET");
                    self.currently_parsing.clear();
                    VcpReceptionState::PacketNr
                } else if b == NEWLINE {
                    VcpReceptionState::Action
                } else {
                    self.currently_parsing.push(b);
                    VcpReceptionState::Action
                }
            },
            VcpReceptionState::PacketNr => {
                self.currently_parsing.push(b);
                if self.currently_parsing.len() == 8 {
                    append_bytes(&mut self.final_action, self.currently_parsing.as_slice());
                    proof {
                        lemma_be_value_bound(self.currently_parsing@);
                        lemma_pow256_eight();
                    }
                    self.packet_nr = be_decode(self.currently_parsing.as_slice());
                    self.currently_parsing.clear();
                    VcpReceptionState::PacketTS
                } else {
                    VcpReceptionState::PacketNr
                }
            },
            VcpReceptionState::PacketLen => {
                self.currently_parsing.push(b);
                if self.currently_parsing.len() == 2 {
                    append_bytes(&mut self.final_action, self.currently_parsing.as_slice());
                    self.packetlen = be_decode(self.currently_parsing.as_slice()) as u16;
                    self.currently_parsing.clear();
                    if self.packetlen == 0 {
                        self.packet_data = Vec::new();
                        VcpReceptionState::Done
                    } else {
                        VcpReceptionState::PacketData
                    }
                } else {
                    VcpReceptionState::PacketLen
                }
            },
            VcpReceptionState::PacketTS => {
                self.currently_parsing.push(b);
                if self.currently_parsing.len() == 8 {
                    append_bytes(&mut self.final_action, self.currently_parsing.as_slice());
                    proof {
                        lemma_be_value_bound(self.currently_parsing@);
                        lemma_pow256_eight();
                    }
                    self.packet_ts = be_decode(self.currently_parsing.as_slice());
                    self.currently_parsing.clear();
                    VcpReceptionState::PacketLen
                } else {
                    VcpReceptionState::PacketTS
                }
            },
            VcpReceptionState::PacketData => {
                self.currently_parsing.push(b);
                self.packet_data.push(b);
                if self.currently_parsing.len() == self.packetlen as usize {
                    append_bytes(&mut self.final_action, self.currently_parsing.as_slice());
                    self.currently_parsing.clear();
                    VcpReceptionState::Done
                } else {
                    VcpReceptionState::PacketData
                }
            },
            VcpReceptionState::UnQuotedArg => {
                if b == SPACE {
                    append_bytes(&mut self.final_action, self.currently_parsing.as_slice());
                    self.final_action.push(SPACE);
                    let arg = utf8_lossy_to_string(self.currently_parsing.as_slice());
                    self.args.push(arg);
                    self.currently_parsing.clear();
                    VcpReceptionState::UnQuotedArg
                } else if b == QUOTE {
                    append_bytes(&mut self.final_action, self.currently_parsing.as_slice());
                    if self.currently_parsing.len() > 0 {
                        let arg = utf8_lossy_to_string(self.currently_parsing.as_slice());
                        self.args.push(arg);
                    }
                    self.currently_parsing.clear();
                    self.currently_parsing.push(b);
                    VcpReceptionState::QuotedArg
                } else if b == CARRIAGE_RETURN || b == NEWLINE {
                    append_bytes(&mut self.final_action, self.currently_parsing.as_slice());
                    if self.currently_parsing.len() > 0 {
                        let arg = utf8_lossy_to_string(self.currently_parsing.as_slice());
                        self.args.push(arg);
                    }
                    self.currently_parsing.clear();
                    VcpReceptionState::Done
                } else {
                    self.currently_parsing.push(b);
                    VcpReceptionState::UnQuotedArg
                }
            },
            VcpReceptionState::QuotedArg => {
                if b == QUOTE {
                    self.currently_parsing.push(b);
                    append_bytes(&mut self.final_action, self.currently_parsing.as_slice());
                    let arg = utf8_lossy_to_string(self.currently_parsing.as_slice());
                    self.args.push(arg);
                    self.currently_parsing.clear();
                    VcpReceptionState::UnQuotedArg
                } else {
                    self.currently_parsing.push(b);
                    VcpReceptionState::QuotedArg
                }
            },
            VcpReceptionState::Done => { VcpReceptionState::Done },
        };
        self.state = next;
        self.parsing_pos = pos + 1;
        assert(self@.args =~= step(v).args);
        assert(self@ =~= step(v));
    }

    /// Gets the packet data received since the last call and clears it; can
    /// be called while the packet data still arrives.
    pub fn stream_packet_data(&mut self) -> (data: Vec<u8>)
        ensures
            data@ == old(self)@.packet_data,
            final(self)@ == (ReceiverView { packet_data: Seq::empty(), ..old(self)@ }),
            valid_view(old(self)@) ==> valid_view(final(self)@),
    {
        let data = copy_bytes(self.packet_data.as_slice());
        self.packet_data.clear();
        assert(self@ =~= (ReceiverView { packet_data: Seq::empty(), ..old(self)@ }));
        return data;
    }

    /// Resets all state for a new message, keeping the bytes not yet read.
    pub fn reset(&mut self)
        ensures
            final(self)@ == reset_view(old(self)@),
            valid_view(final(self)@),
    {
        if self.parsing_pos < self.backlog.len() {
            let rest = self.backlog.split_off(self.parsing_pos);
            self.backlog = rest;
        } else {
            self.backlog.clear();
        }
        self.parsing_pos = 0;
        self.currently_parsing.clear();
        self.packetlen = 0;
        self.packet_ts = 0;
        self.packet_nr = 0;
        self.state = VcpReceptionState::Action;
        self.final_action.clear();
        self.packet_data.clear();
        self.action_name = String::new();
        self.args = Vec::new();
        assert(self@ =~= reset_view(old(self)@));
    }

    /// The action name of the current message.
    pub fn get_action(&self) -> (r: &String)
        ensures
            r@ == self@.action_name,
    {
        return &self.action_name;
    }

    /// Appends `bytes` to the backlog and reads on; returns the state reached.
    pub fn feed(&mut self, bytes: Vec<u8>) -> (r: &VcpReceptionState)
        ensures
            final(self)@ == run(with_more(old(self)@, bytes@)),
            *r == final(self)@.state,
            valid_view(old(self)@) ==> valid_view(final(self)@),
            !can_step(final(self)@),
    {
        let ghost added = bytes@;
        let mut more = bytes;
        self.backlog.append(&mut more);
        assert(self@ =~= with_more(old(self)@, added));
        self.run_to_end();
        proof {
            if valid_view(old(self)@) {
                law_position_in_backlog(old(self)@, added);
                law_position_in_backlog(with_more(old(self)@, added), Seq::empty());
            }
            law_run_stops(with_more(old(self)@, added));
        }
        return &self.state;
    }

    /// The state the receiver is in.
    pub fn get_state(&self) -> (r: &VcpReceptionState)
        ensures
            *r == self@.state,
    {
        return &self.state;
    }

    /// The framed bytes of the message; meant for when it is done.
    pub fn get_result(&self) -> (r: &Vec<u8>)
        ensures
            r@ == self@.final_action,
    {
        return &self.final_action;
    }

    /// The arguments read so far.
    pub fn get_args(&self) -> (r: &Vec<String>)
        ensures
            r@.map_values(|a: String| a@) == self@.args,
    {
        return &self.args;
    }

    /// The packet number of a packet message.
    pub fn get_packet_nr(&self) -> (r: u64)
        ensures
            r == self@.packet_nr,
    {
        return self.packet_nr;
    }

    /// The data of a packet message.
    pub fn get_packet_data(&self) -> (r: &Vec<u8>)
        ensures
            r@ == self@.packet_data,
    {
        return &self.packet_data;
    }

    /// The data length of a packet message.
    pub fn get_packet_len(&self) -> (r: u16)
        ensures
            r == self@.packet_len,
    {
        return self.packetlen;
    }

    /// The time stamp of a packet message.
    pub fn get_packet_ts(&self) -> (r: u64)
        ensures
            r == self@.packet_ts,
    {
        return self.packet_ts;
    }
}

proof fn lemma_pow256_eight()
    ensures
        pow256(8) == 0x1_0000_0000_0000_0000,
{
    reveal_with_fuel(pow256, 9);
}

} // verus!
