use vstd::prelude::*;
use crate::bytes::{be_value, lemma_be_value_bound, pow256};
use crate::receiver::{
    can_step, initial_view, push_nonempty_arg, react, valid_view, reset_view, run, step, with_more, ReceiverView,
    VcpReceptionState, CARRIAGE_RETURN, NEWLINE, QUOTE, SLASH, SPACE,
};
use crate::text::arg_text;
use vstd::utf8::{decode_utf8, valid_utf8};

verus! {

proof fn lemma_step_with_more(v: ReceiverView, b: Seq<u8>)
    requires
        can_step(v),
    ensures
        can_step(with_more(v, b)),
        step(with_more(v, b)) == with_more(step(v), b),
{
    assert(with_more(v, b).backlog[v.parsing_pos] == v.backlog[v.parsing_pos]);
    assert(step(with_more(v, b)) =~= with_more(step(v), b));
}

proof fn lemma_run_with_more(v: ReceiverView, b: Seq<u8>)
    requires
        0 <= v.parsing_pos,
    ensures
        run(with_more(run(v), b)) == run(with_more(v, b)),
    decreases v.backlog.len() - v.parsing_pos,
{
    if can_step(v) {
        lemma_step_with_more(v, b);
        lemma_run_with_more(step(v), b);
    }
}

/// Feeding `b` and then `c` leaves a receiver where feeding `b + c` at once
/// would: how the bytes are split into chunks does not matter.
pub proof fn law_feed_concat(v: ReceiverView, b: Seq<u8>, c: Seq<u8>)
    requires
        valid_view(v),
    ensures
        run(with_more(run(with_more(v, b)), c)) == run(with_more(v, b + c)),
{
    lemma_run_with_more(with_more(v, b), c);
    assert(with_more(with_more(v, b), c) =~= with_more(v, b + c));
}

/// A receiver made from `a` and then fed `b` is the receiver made from `a + b`.
pub proof fn law_new_then_feed(a: Seq<u8>, b: Seq<u8>)
    ensures
        run(with_more(run(initial_view(a)), b)) == run(initial_view(a + b)),
{
    lemma_run_with_more(initial_view(a), b);
    assert(with_more(initial_view(a), b) =~= initial_view(a + b));
}

/// Once a message is done, feeding only adds to the backlog.
pub proof fn law_done_only_buffers(v: ReceiverView, b: Seq<u8>)
    requires
        v.state == VcpReceptionState::Done,
    ensures
        run(with_more(v, b)) == with_more(v, b),
{
}

/// Reading keeps the position within the backlog, and so does a reset.
pub proof fn law_position_in_backlog(v: ReceiverView, b: Seq<u8>)
    requires
        valid_view(v),
    ensures
        valid_view(run(v)),
        valid_view(with_more(v, b)),
        valid_view(reset_view(v)),
    decreases v.backlog.len() - v.parsing_pos,
{
    if can_step(v) {
        law_position_in_backlog(step(v), b);
    }
}

/// Reading stops only when the message is done or the backlog is used up.
pub proof fn law_run_stops(v: ReceiverView)
    requires
        0 <= v.parsing_pos,
    ensures
        !can_step(run(v)),
    decreases v.backlog.len() - v.parsing_pos,
{
    if can_step(v) {
        law_run_stops(step(v));
    }
}

/// After `reset`, feeding `b` leaves the receiver that a new receiver made
/// from the unread rest of the backlog followed by `b` would be.
pub proof fn law_reset_then_feed(v: ReceiverView, b: Seq<u8>)
    ensures
        run(with_more(reset_view(v), b)) == run(initial_view(reset_view(v).backlog + b)),
{
    assert(with_more(reset_view(v), b) =~= initial_view(reset_view(v).backlog + b));
}

/// `v` with the bytes `pre` put before its backlog and its position moved past them.
pub open spec fn after_prefix(v: ReceiverView, pre: Seq<u8>) -> ReceiverView {
    ReceiverView { backlog: pre + v.backlog, parsing_pos: v.parsing_pos + pre.len(), ..v }
}

/// `k` line feeds.
pub open spec fn newlines(k: nat) -> Seq<u8> {
    Seq::new(k, |i: int| NEWLINE)
}

proof fn lemma_run_after_prefix(v: ReceiverView, pre: Seq<u8>)
    requires
        0 <= v.parsing_pos,
    ensures
        run(after_prefix(v, pre)) == after_prefix(run(v), pre),
    decreases v.backlog.len() - v.parsing_pos,
{
    let w = after_prefix(v, pre);
    if can_step(v) {
        assert(w.backlog[w.parsing_pos] == v.backlog[v.parsing_pos]);
        assert(step(w) =~= after_prefix(step(v), pre));
        lemma_run_after_prefix(step(v), pre);
    } else {
        assert(!can_step(w));
    }
}

proof fn lemma_skip_newlines(v: ReceiverView, k: nat)
    requires
        v.state == VcpReceptionState::Action,
        0 <= v.parsing_pos,
        v.parsing_pos + k <= v.backlog.len(),
        forall|i: int| 0 <= i < k ==> #[trigger] v.backlog[v.parsing_pos + i] == NEWLINE,
    ensures
        run(v) == run(ReceiverView { parsing_pos: v.parsing_pos + k, ..v }),
    decreases k,
{
    if k == 0 {
        assert((ReceiverView { parsing_pos: v.parsing_pos + k, ..v }) =~= v);
    } else {
        assert(v.backlog[v.parsing_pos + 0] == NEWLINE);
        let v1 = step(v);
        assert(v1 =~= ReceiverView { parsing_pos: v.parsing_pos + 1, ..v });
        assert forall|i: int| 0 <= i < k - 1 implies #[trigger] v1.backlog[v1.parsing_pos + i]
            == NEWLINE by {
            assert(v.backlog[v.parsing_pos + (i + 1)] == NEWLINE);
        }
        lemma_skip_newlines(v1, (k - 1) as nat);
        assert((ReceiverView { parsing_pos: v1.parsing_pos + (k - 1), ..v1 }) =~= (ReceiverView {
            parsing_pos: v.parsing_pos + k,
            ..v
        }));
    }
}

/// Line feeds before a message are skipped: a receiver made from `k` line
/// feeds followed by `m` ends as the one made from `m`, except that its
/// backlog keeps the line feeds and its position counts them.
pub proof fn law_leading_newlines(k: nat, m: Seq<u8>)
    ensures
        run(initial_view(newlines(k) + m)) == after_prefix(run(initial_view(m)), newlines(k)),
{
    let v = initial_view(newlines(k) + m);
    assert forall|i: int| 0 <= i < k implies #[trigger] v.backlog[v.parsing_pos + i] == NEWLINE by {
        assert(v.backlog[i] == newlines(k)[i]);
    }
    lemma_skip_newlines(v, k);
    assert((ReceiverView { parsing_pos: v.parsing_pos + k, ..v }) =~= after_prefix(
        initial_view(m),
        newlines(k),
    ));
    lemma_run_after_prefix(initial_view(m), newlines(k));
}

/// An action name that is not valid UTF-8 is dropped at the space after it:
/// the receiver goes on reading a new action as if the name and the space
/// had not been there.
pub proof fn law_invalid_action_dropped(v: ReceiverView, name: Seq<u8>)
    requires
        backlog_holds(v, 0, name + seq![SPACE]),
        v.state == VcpReceptionState::Action,
        v.currently_parsing.len() == 0,
        forall|i: int| 0 <= i < name.len() ==> plain_name_byte(#[trigger] name[i]),
        !valid_utf8(name),
    ensures
        run(v) == run(ReceiverView { parsing_pos: v.parsing_pos + name.len() + 1, ..v }),
{
    let m = name + seq![SPACE];
    let n = name.len() as int;
    let p = v.parsing_pos;
    lemma_backlog_piece(v, m, 0, n);
    assert(m.subrange(0, n) =~= name);
    assert forall|i: int| 0 <= i < name.len() implies #[trigger] extends_token(
        token_view(v, name.take(i)),
        name[i],
    ) by {
        assert(plain_name_byte(name[i]));
    }
    lemma_run_token(v, name);
    let v1 = token_view(v, name);
    assert(v1.currently_parsing =~= name);
    assert(v.backlog.subrange(p, p + m.len())[n] == v.backlog[p + n]);
    assert(v1.backlog[v1.parsing_pos] == SPACE);
    assert(can_step(v1));
    assert(step(v1) =~= ReceiverView { parsing_pos: v.parsing_pos + name.len() + 1, ..v });
}

/// `reset` keeps exactly the unread part of the backlog, whatever message
/// was read, and starts a new receiver on it.
pub proof fn law_reset_keeps_unread(v: ReceiverView)
    requires
        valid_view(v),
    ensures
        reset_view(v).backlog == v.backlog.subrange(v.parsing_pos, v.backlog.len() as int),
        reset_view(v) == initial_view(v.backlog.subrange(v.parsing_pos, v.backlog.len() as int)),
{
    if v.parsing_pos == v.backlog.len() {
        assert(v.backlog.subrange(v.parsing_pos, v.backlog.len() as int) =~= Seq::<u8>::empty());
    }
}

/// A packet message followed by any bytes: after the packet is read, a
/// reset and a feed of nothing leave the receiver made from those bytes.
pub proof fn law_packet_then_next(
    name: Seq<u8>,
    nr: Seq<u8>,
    ts: Seq<u8>,
    len: Seq<u8>,
    data: Seq<u8>,
    next: Seq<u8>,
)
    requires
        forall|i: int| 0 <= i < name.len() ==> plain_name_byte(#[trigger] name[i]),
        nr.len() == 8,
        ts.len() == 8,
        len.len() == 2,
        data.len() == be_value(len),
    ensures
        run(with_more(reset_view(run(initial_view(packet_message(name, nr, ts, len, data) + next))), Seq::empty()))
            == run(initial_view(next)),
{
    let m = packet_message(name, nr, ts, len, data);
    let v = initial_view(m + next);
    assert(v.backlog.subrange(0, m.len() as int) =~= m);
    law_packet_message(v, name, nr, ts, len, data);
    let r = run(v);
    assert(r.backlog.subrange(r.parsing_pos, r.backlog.len() as int) =~= next);
    law_reset_keeps_unread(r);
    assert(with_more(reset_view(r), Seq::empty()) =~= initial_view(next));
}

/// The view after the bytes `s` were read into the current token.
pub open spec fn token_view(v: ReceiverView, s: Seq<u8>) -> ReceiverView {
    ReceiverView {
        currently_parsing: v.currently_parsing + s,
        parsing_pos: v.parsing_pos + s.len(),
        ..v
    }
}

/// Reading `b` in view `w` only adds it to the current token.
pub open spec fn extends_token(w: ReceiverView, b: u8) -> bool {
    react(w, b) == (ReceiverView { currently_parsing: w.currently_parsing.push(b), ..w })
}

/// Reading a run of bytes that each only extend the current token.
proof fn lemma_run_token(v: ReceiverView, t: Seq<u8>)
    requires
        0 <= v.parsing_pos,
        v.parsing_pos + t.len() <= v.backlog.len(),
        v.backlog.subrange(v.parsing_pos, v.parsing_pos + t.len()) == t,
        v.state != VcpReceptionState::Done,
        forall|i: int| 0 <= i < t.len() ==> #[trigger] extends_token(token_view(v, t.take(i)), t[i]),
    ensures
        run(v) == run(token_view(v, t)),
    decreases t.len(),
{
    if t.len() == 0 {
        assert(token_view(v, t) =~= v);
    } else {
        let p = v.parsing_pos;
        assert(v.backlog[p] == v.backlog.subrange(p, p + t.len())[0]);
        assert(t.take(0) =~= Seq::<u8>::empty());
        assert(token_view(v, t.take(0)) =~= v);
        assert(extends_token(token_view(v, t.take(0)), t[0]));
        let v1 = step(v);
        assert(v1 =~= token_view(v, t.take(1)));
        let t1 = t.drop_first();
        assert(v1.backlog.subrange(v1.parsing_pos, v1.parsing_pos + t1.len()) =~= t1) by {
            assert forall|j: int| 0 <= j < t1.len() implies #[trigger] v1.backlog.subrange(
                v1.parsing_pos,
                v1.parsing_pos + t1.len(),
            )[j] == t1[j] by {
                assert(v.backlog.subrange(p, p + t.len())[j + 1] == t[j + 1]);
            }
        }
        assert forall|i: int| 0 <= i < t1.len() implies #[trigger] extends_token(
            token_view(v1, t1.take(i)),
            t1[i],
        ) by {
            assert(token_view(v1, t1.take(i)) =~= token_view(v, t.take(i + 1)));
            assert(extends_token(token_view(v, t.take(i + 1)), t[i + 1]));
        }
        lemma_run_token(v1, t1);
        assert(token_view(v1, t1) =~= token_view(v, t));
    }
}

/// The bytes of `t` stand in the backlog of `v` at offset `off` from its position.
pub open spec fn backlog_holds(v: ReceiverView, off: int, t: Seq<u8>) -> bool {
    &&& 0 <= v.parsing_pos
    &&& 0 <= off
    &&& v.parsing_pos + off + t.len() <= v.backlog.len()
    &&& v.backlog.subrange(v.parsing_pos + off, v.parsing_pos + off + t.len()) == t
}

proof fn lemma_backlog_piece(v: ReceiverView, m: Seq<u8>, off: int, len: int)
    requires
        backlog_holds(v, 0, m),
        0 <= off,
        0 <= len,
        off + len <= m.len(),
    ensures
        backlog_holds(v, off, m.subrange(off, off + len)),
{
    let p = v.parsing_pos;
    assert forall|j: int| 0 <= j < len implies #[trigger] v.backlog.subrange(p + off, p + off + len)[j]
        == m.subrange(off, off + len)[j] by {
        assert(v.backlog.subrange(p, p + m.len())[off + j] == m[off + j]);
    }
    assert(v.backlog.subrange(p + off, p + off + len) =~= m.subrange(off, off + len));
}

/// Reading the bytes of a fixed-size field: all but the last only extend the token.
proof fn lemma_run_field(v: ReceiverView, t: Seq<u8>, size: int)
    requires
        backlog_holds(v, 0, t),
        t.len() == size,
        1 <= size,
        v.currently_parsing.len() == 0,
        v.state == VcpReceptionState::PacketNr || v.state == VcpReceptionState::PacketTS
            || v.state == VcpReceptionState::PacketLen,
        v.state == VcpReceptionState::PacketNr ==> size == 8,
        v.state == VcpReceptionState::PacketTS ==> size == 8,
        v.state == VcpReceptionState::PacketLen ==> size == 2,
    ensures
        run(v) == run(step(token_view(v, t.take(size - 1)))),
        can_step(token_view(v, t.take(size - 1))),
        token_view(v, t.take(size - 1)).currently_parsing.push(t[size - 1]) == t,
        token_view(v, t.take(size - 1)).backlog[v.parsing_pos + size - 1] == t[size - 1],
{
    let p = v.parsing_pos;
    let head = t.take(size - 1);
    assert(v.backlog.subrange(p, p + size - 1) =~= head) by {
        assert forall|j: int| 0 <= j < size - 1 implies #[trigger] v.backlog.subrange(p, p + size - 1)[j]
            == head[j] by {
            assert(v.backlog.subrange(p, p + size)[j] == t[j]);
        }
    }
    assert forall|i: int| 0 <= i < head.len() implies #[trigger] extends_token(
        token_view(v, head.take(i)),
        head[i],
    ) by {
        let w = token_view(v, head.take(i));
        assert(w.currently_parsing.len() == i);
        assert(w.currently_parsing.push(head[i]).len() == i + 1);
    }
    lemma_run_token(v, head);
    assert(token_view(v, head).currently_parsing.push(t[size - 1]) =~= t);
    assert(v.backlog.subrange(p, p + size)[size - 1] == t[size - 1]);
}

/// The view after the data bytes `s` arrived without completing the packet:
/// they are counted in the current token and added to the packet data.
pub open spec fn data_view(v: ReceiverView, s: Seq<u8>) -> ReceiverView {
    ReceiverView {
        currently_parsing: v.currently_parsing + s,
        packet_data: v.packet_data + s,
        parsing_pos: v.parsing_pos + s.len(),
        ..v
    }
}

/// Reading data bytes that do not yet complete the packet.
proof fn lemma_run_data(v: ReceiverView, t: Seq<u8>)
    requires
        backlog_holds(v, 0, t),
        v.state == VcpReceptionState::PacketData,
        v.currently_parsing.len() + t.len() < v.packet_len,
    ensures
        run(v) == run(data_view(v, t)),
    decreases t.len(),
{
    if t.len() == 0 {
        assert(data_view(v, t) =~= v);
    } else {
        let p = v.parsing_pos;
        assert(v.backlog[p] == v.backlog.subrange(p, p + t.len())[0]);
        let v1 = step(v);
        assert(v1 =~= data_view(v, t.take(1)));
        let t1 = t.drop_first();
        assert(v1.backlog.subrange(v1.parsing_pos, v1.parsing_pos + t1.len()) =~= t1) by {
            assert forall|j: int| 0 <= j < t1.len() implies #[trigger] v1.backlog.subrange(
                v1.parsing_pos,
                v1.parsing_pos + t1.len(),
            )[j] == t1[j] by {
                assert(v.backlog.subrange(p, p + t.len())[j + 1] == t[j + 1]);
            }
        }
        lemma_run_data(v1, t1);
        assert(data_view(v1, t1) =~= data_view(v, t));
    }
}

/// Reading the data bytes that complete the packet.
proof fn lemma_run_data_last(v: ReceiverView, t: Seq<u8>)
    requires
        backlog_holds(v, 0, t),
        v.state == VcpReceptionState::PacketData,
        t.len() >= 1,
        v.currently_parsing.len() + t.len() == v.packet_len,
    ensures
        run(v) == (ReceiverView {
            final_action: v.final_action + v.currently_parsing + t,
            currently_parsing: Seq::empty(),
            packet_data: v.packet_data + t,
            parsing_pos: v.parsing_pos + t.len(),
            state: VcpReceptionState::Done,
            ..v
        }),
{
    let p = v.parsing_pos;
    let n = t.len() as int;
    let head = t.take(n - 1);
    assert(v.backlog.subrange(p, p + n - 1) =~= head) by {
        assert forall|j: int| 0 <= j < n - 1 implies #[trigger] v.backlog.subrange(p, p + n - 1)[j]
            == head[j] by {
            assert(v.backlog.subrange(p, p + n)[j] == t[j]);
        }
    }
    lemma_run_data(v, head);
    let w = data_view(v, head);
    assert(v.backlog.subrange(p, p + n)[n - 1] == t[n - 1]);
    assert(w.backlog[w.parsing_pos] == t[n - 1]);
    assert(w.currently_parsing.push(t[n - 1]) =~= v.currently_parsing + t);
    assert(w.packet_data.push(t[n - 1]) =~= v.packet_data + t);
    let done = ReceiverView {
        final_action: v.final_action + v.currently_parsing + t,
        currently_parsing: Seq::empty(),
        packet_data: v.packet_data + t,
        parsing_pos: v.parsing_pos + t.len(),
        state: VcpReceptionState::Done,
        ..v
    };
    assert(step(w).final_action =~= done.final_action);
    assert(step(w) =~= done);
    assert(can_step(w));
    assert(run(w) == run(step(w)));
    assert(run(done) == done);
}

/// Packet data can be taken while it arrives: data bytes fed to a receiver
/// that has read its whole backlog are added to the packet data one by one,
/// and the message is done when the packet length is reached, with every
/// data byte in its result.
pub proof fn law_packet_data_streams(v: ReceiverView, t: Seq<u8>)
    requires
        valid_view(v),
        v.parsing_pos == v.backlog.len(),
        v.state == VcpReceptionState::PacketData,
        v.currently_parsing.len() + t.len() <= v.packet_len,
    ensures
        v.currently_parsing.len() + t.len() < v.packet_len ==> run(with_more(v, t)) == data_view(
            with_more(v, t),
            t,
        ),
        v.currently_parsing.len() + t.len() == v.packet_len && t.len() > 0 ==> run(
            with_more(v, t),
        ) == (ReceiverView {
            final_action: v.final_action + v.currently_parsing + t,
            currently_parsing: Seq::empty(),
            packet_data: v.packet_data + t,
            parsing_pos: v.parsing_pos + t.len(),
            state: VcpReceptionState::Done,
            backlog: v.backlog + t,
            ..v
        }),
{
    let w = with_more(v, t);
    assert(w.backlog.subrange(w.parsing_pos, w.parsing_pos + t.len()) =~= t);
    if v.currently_parsing.len() + t.len() < v.packet_len {
        lemma_run_data(w, t);
        assert(!can_step(data_view(w, t)));
    } else if t.len() > 0 {
        lemma_run_data_last(w, t);
    }
}

/// The action name of a packet message holds no space, slash or line feed.
pub open spec fn plain_name_byte(b: u8) -> bool {
    b != SPACE && b != SLASH && b != NEWLINE
}

/// A packet message: the action name, a slash, then the packet number, the
/// time stamp and the data length (big-endian, in 8, 8 and 2 bytes), then
/// as many data bytes as the length says.
pub open spec fn packet_message(
    name: Seq<u8>,
    nr: Seq<u8>,
    ts: Seq<u8>,
    len: Seq<u8>,
    data: Seq<u8>,
) -> Seq<u8> {
    name + seq![SLASH] + nr + ts + len + data
}

/// Reading the action name of a packet message and its slash.
proof fn lemma_run_packet_name(v: ReceiverView, name: Seq<u8>, m: Seq<u8>)
    requires
        backlog_holds(v, 0, m),
        name.len() + 1 <= m.len(),
        m.subrange(0, name.len() as int) == name,
        m[name.len() as int] == SLASH,
        v.state == VcpReceptionState::Action,
        v.currently_parsing.len() == 0,
        forall|i: int| 0 <= i < name.len() ==> plain_name_byte(#[trigger] name[i]),
    ensures
        run(v) == run(
            ReceiverView {
                final_action: v.final_action + name + seq![SLASH],
                parsing_pos: v.parsing_pos + name.len() + 1,
                state: VcpReceptionState::PacketNr,
                action_name: "PACKET"@,
                ..v
            },
        ),
{
    let n = name.len() as int;
    let p = v.parsing_pos;
    lemma_backlog_piece(v, m, 0, n);
    assert forall|i: int| 0 <= i < name.len() implies #[trigger] extends_token(
        token_view(v, name.take(i)),
        name[i],
    ) by {
        assert(plain_name_byte(name[i]));
    }
    lemma_run_token(v, name);
    let v1 = token_view(v, name);
    assert(v1.currently_parsing =~= name);
    assert(v.backlog.subrange(p, p + m.len())[n] == v.backlog[p + n]);
    assert(v1.backlog[v1.parsing_pos] == SLASH);
    assert(step(v1) =~= ReceiverView {
        final_action: v.final_action + name + seq![SLASH],
        parsing_pos: v.parsing_pos + name.len() + 1,
        state: VcpReceptionState::PacketNr,
        action_name: "PACKET"@,
        ..v
    });
}

/// A receiver at the start of a message that reads a whole packet message
/// ends done with the packet's number, time stamp, length and data, the
/// action name "PACKET", and the message's bytes appended to its result.
pub proof fn law_packet_message(
    v: ReceiverView,
    name: Seq<u8>,
    nr: Seq<u8>,
    ts: Seq<u8>,
    len: Seq<u8>,
    data: Seq<u8>,
)
    requires
        backlog_holds(v, 0, packet_message(name, nr, ts, len, data)),
        v.state == VcpReceptionState::Action,
        v.currently_parsing.len() == 0,
        v.packet_data.len() == 0,
        forall|i: int| 0 <= i < name.len() ==> plain_name_byte(#[trigger] name[i]),
        nr.len() == 8,
        ts.len() == 8,
        len.len() == 2,
        data.len() == be_value(len),
    ensures
        run(v) == (ReceiverView {
            final_action: v.final_action + packet_message(name, nr, ts, len, data),
            parsing_pos: v.parsing_pos + packet_message(name, nr, ts, len, data).len(),
            state: VcpReceptionState::Done,
            packet_nr: be_value(nr) as u64,
            packet_ts: be_value(ts) as u64,
            packet_len: be_value(len) as u16,
            packet_data: data,
            action_name: "PACKET"@,
            ..v
        }),
{
    let m = packet_message(name, nr, ts, len, data);
    let n = name.len() as int;
    let p = v.parsing_pos;
    lemma_be_value_bound(nr);
    lemma_be_value_bound(ts);
    lemma_be_value_bound(len);
    reveal_with_fuel(pow256, 9);
    assert(m.subrange(0, n) =~= name);
    assert(m[n] == SLASH);
    // the action name and the slash
    lemma_run_packet_name(v, name, m);
    let v2 = ReceiverView {
        final_action: v.final_action + name + seq![SLASH],
        parsing_pos: p + n + 1,
        state: VcpReceptionState::PacketNr,
        action_name: "PACKET"@,
        ..v
    };
    // the packet number
    lemma_backlog_piece(v, m, n + 1, 8);
    assert(m.subrange(n + 1, n + 9) =~= nr);
    assert(backlog_holds(v2, 0, nr));
    lemma_run_field(v2, nr, 8);
    let v3 = step(token_view(v2, nr.take(7)));
    // the time stamp
    lemma_backlog_piece(v, m, n + 9, 8);
    assert(m.subrange(n + 9, n + 17) =~= ts);
    assert(backlog_holds(v3, 0, ts));
    lemma_run_field(v3, ts, 8);
    let v4 = step(token_view(v3, ts.take(7)));
    // the data length
    lemma_backlog_piece(v, m, n + 17, 2);
    assert(m.subrange(n + 17, n + 19) =~= len);
    assert(backlog_holds(v4, 0, len));
    lemma_run_field(v4, len, 2);
    let v5 = step(token_view(v4, len.take(1)));
    assert(v5.packet_len == data.len());
    let expected = ReceiverView {
        final_action: v.final_action + m,
        parsing_pos: p + m.len(),
        state: VcpReceptionState::Done,
        packet_nr: be_value(nr) as u64,
        packet_ts: be_value(ts) as u64,
        packet_len: be_value(len) as u16,
        packet_data: data,
        action_name: "PACKET"@,
        ..v
    };
    if data.len() == 0 {
        assert(v5.final_action =~= v.final_action + m);
        assert(v5 =~= expected);
    } else {
        lemma_backlog_piece(v, m, n + 19, data.len() as int);
        assert(m.subrange(n + 19, n + 19 + data.len()) =~= data);
        assert(backlog_holds(v5, 0, data));
        lemma_run_data_last(v5, data);
        assert(v5.final_action + v5.currently_parsing + data =~= v.final_action + m);
        assert(v5.packet_data + data =~= data);
        assert(run(v5) =~= expected);
    }
}

/// An unquoted argument holds no space, quote or line break.
pub open spec fn plain_arg_byte(b: u8) -> bool {
    b != SPACE && b != QUOTE && b != CARRIAGE_RETURN && b != NEWLINE
}

/// An unquoted argument: not empty, and made of plain bytes.
pub open spec fn plain_arg(a: Seq<u8>) -> bool {
    a.len() > 0 && forall|i: int| 0 <= i < a.len() ==> plain_arg_byte(#[trigger] a[i])
}

/// The arguments with single spaces between them.
pub open spec fn join_args(args: Seq<Seq<u8>>) -> Seq<u8>
    decreases args.len(),
{
    if args.len() == 0 {
        Seq::empty()
    } else if args.len() == 1 {
        args[0]
    } else {
        args[0] + seq![SPACE] + join_args(args.drop_first())
    }
}

/// A text message: the action name, a space, the argument tokens separated
/// by spaces, and a line break (`end`).
pub open spec fn text_message(name: Seq<u8>, args: Seq<Seq<u8>>, end: u8) -> Seq<u8> {
    name + seq![SPACE] + join_args(args) + seq![end]
}

/// A quoted argument: a quote, any bytes other than a quote, and a closing quote.
pub open spec fn quoted_arg(a: Seq<u8>) -> bool {
    &&& a.len() >= 2
    &&& a[0] == QUOTE
    &&& a[a.len() - 1] == QUOTE
    &&& forall|i: int| 1 <= i < a.len() - 1 ==> #[trigger] a[i] != QUOTE
}

/// An argument token of a text message: unquoted or quoted.
pub open spec fn arg_token(a: Seq<u8>) -> bool {
    plain_arg(a) || quoted_arg(a)
}

/// The arguments a text message with these tokens yields: each token's
/// text, quotes included; a space after a quoted token yields one more,
/// empty, argument.
pub open spec fn args_read(tokens: Seq<Seq<u8>>) -> Seq<Seq<char>>
    decreases tokens.len(),
{
    if tokens.len() == 0 {
        Seq::empty()
    } else if tokens.len() == 1 {
        seq![arg_text(tokens[0])]
    } else if quoted_arg(tokens[0]) {
        seq![arg_text(tokens[0]), arg_text(Seq::empty())] + args_read(tokens.drop_first())
    } else {
        seq![arg_text(tokens[0])] + args_read(tokens.drop_first())
    }
}

/// The receiver after reading one argument token from the unquoted state.
pub open spec fn after_token(w: ReceiverView, a: Seq<u8>) -> ReceiverView {
    if quoted_arg(a) {
        ReceiverView {
            final_action: w.final_action + a,
            args: w.args.push(arg_text(a)),
            parsing_pos: w.parsing_pos + a.len(),
            ..w
        }
    } else {
        token_view(w, a)
    }
}

/// Reading one argument token.
proof fn lemma_run_arg_token(w: ReceiverView, a: Seq<u8>)
    requires
        backlog_holds(w, 0, a),
        w.state == VcpReceptionState::UnQuotedArg,
        w.currently_parsing.len() == 0,
        arg_token(a),
    ensures
        run(w) == run(after_token(w, a)),
        after_token(w, a).state == VcpReceptionState::UnQuotedArg,
        after_token(w, a).parsing_pos == w.parsing_pos + a.len(),
        after_token(w, a).backlog == w.backlog,
        after_token(w, a).final_action + after_token(w, a).currently_parsing == w.final_action + a,
        after_token(w, a).args + push_nonempty_arg(Seq::empty(), after_token(w, a).currently_parsing)
            == w.args.push(arg_text(a)),
        quoted_arg(a) ==> after_token(w, a).currently_parsing.len() == 0,
        !quoted_arg(a) ==> after_token(w, a).currently_parsing == a,
{
    let p = w.parsing_pos;
    let n = a.len() as int;
    if quoted_arg(a) {
        assert(w.backlog[p] == w.backlog.subrange(p, p + n)[0]);
        let w1 = step(w);
        assert(w1.currently_parsing =~= seq![QUOTE]);
        assert(w1.state == VcpReceptionState::QuotedArg);
        let inner = a.subrange(1, n - 1);
        assert(w1.backlog.subrange(w1.parsing_pos, w1.parsing_pos + inner.len()) =~= inner) by {
            assert forall|j: int| 0 <= j < inner.len() implies #[trigger] w1.backlog.subrange(
                w1.parsing_pos,
                w1.parsing_pos + inner.len(),
            )[j] == inner[j] by {
                assert(w.backlog.subrange(p, p + n)[j + 1] == a[j + 1]);
            }
        }
        assert forall|i: int| 0 <= i < inner.len() implies #[trigger] extends_token(
            token_view(w1, inner.take(i)),
            inner[i],
        ) by {
            assert(a[i + 1] != QUOTE);
        }
        lemma_run_token(w1, inner);
        let w2 = token_view(w1, inner);
        assert(w.backlog.subrange(p, p + n)[n - 1] == a[n - 1]);
        assert(w2.backlog[w2.parsing_pos] == QUOTE);
        assert(w2.currently_parsing.push(QUOTE) =~= a);
        let target = after_token(w, a);
        assert(step(w2).final_action =~= target.final_action);
        assert(step(w2) =~= target);
        assert(can_step(w1));
        assert(can_step(w2));
        assert(run(w) == run(w1));
        assert(run(w2) == run(step(w2)));
        assert(target.final_action + target.currently_parsing =~= w.final_action + a);
        assert(target.args + push_nonempty_arg(Seq::empty(), target.currently_parsing)
            =~= w.args.push(arg_text(a)));
    } else {
        assert forall|i: int| 0 <= i < a.len() implies #[trigger] extends_token(
            token_view(w, a.take(i)),
            a[i],
        ) by {
            assert(plain_arg_byte(a[i]));
        }
        lemma_run_token(w, a);
        assert(token_view(w, a).currently_parsing =~= a);
        assert(token_view(w, a).final_action + a =~= w.final_action + a);
        assert(w.args + seq![arg_text(a)] =~= w.args.push(arg_text(a)));
    }
}

proof fn lemma_run_args(w: ReceiverView, args: Seq<Seq<u8>>, end: u8)
    requires
        backlog_holds(w, 0, join_args(args) + seq![end]),
        w.state == VcpReceptionState::UnQuotedArg,
        w.currently_parsing.len() == 0,
        forall|k: int| 0 <= k < args.len() ==> arg_token(#[trigger] args[k]),
        end == CARRIAGE_RETURN || end == NEWLINE,
    ensures
        run(w) == (ReceiverView {
            final_action: w.final_action + join_args(args),
            parsing_pos: w.parsing_pos + join_args(args).len() + 1,
            state: VcpReceptionState::Done,
            args: w.args + args_read(args),
            ..w
        }),
    decreases args.len(),
{
    let p = w.parsing_pos;
    let j = join_args(args);
    let m = j + seq![end];
    let expected = ReceiverView {
        final_action: w.final_action + j,
        parsing_pos: p + j.len() + 1,
        state: VcpReceptionState::Done,
        args: w.args + args_read(args),
        ..w
    };
    if args.len() == 0 {
        assert(j =~= Seq::<u8>::empty());
        assert(w.backlog.subrange(p, p + m.len())[0] == w.backlog[p]);
        assert(w.backlog[p] == end);
        assert(step(w).final_action =~= w.final_action + j);
        assert(step(w).args =~= expected.args);
        assert(step(w) =~= expected);
        assert(can_step(w));
        assert(run(step(w)) == step(w));
    } else {
        let a = args[0];
        assert(arg_token(a));
        let al = a.len() as int;
        lemma_backlog_piece(w, m, 0, al);
        assert(m.subrange(0, al) =~= a);
        lemma_run_arg_token(w, a);
        let w1 = after_token(w, a);
        let q = p + al;
        assert(w.backlog.subrange(p, p + m.len())[al] == w.backlog[q]);
        assert(w1.backlog[w1.parsing_pos] == w.backlog[q]);
        assert(can_step(w1));
        assert(run(w1) == run(step(w1)));
        if args.len() == 1 {
            assert(j == a);
            assert(m[al] == end);
            let w2 = step(w1);
            assert(w2.final_action =~= w1.final_action + w1.currently_parsing);
            assert(w2.final_action =~= w.final_action + j);
            assert(w2.args == w1.args + push_nonempty_arg(Seq::empty(), w1.currently_parsing))
                by {
                assert(w1.args + push_nonempty_arg(Seq::empty(), w1.currently_parsing)
                    =~= push_nonempty_arg(w1.args, w1.currently_parsing));
            }
            assert(args_read(args) =~= seq![arg_text(a)]);
            assert(w2.args =~= expected.args);
            assert(w2 =~= expected);
            assert(run(w2) == w2);
        } else {
            let rest = args.drop_first();
            let jr = join_args(rest);
            assert(j == a + seq![SPACE] + jr);
            assert(m[al] == SPACE);
            let w2 = step(w1);
            assert(w2.state == VcpReceptionState::UnQuotedArg);
            assert(w2.currently_parsing.len() == 0);
            let rl = jr.len() as int;
            lemma_backlog_piece(w, m, al + 1, rl + 1);
            assert(m.subrange(al + 1, al + 1 + rl + 1) =~= jr + seq![end]);
            assert(backlog_holds(w2, 0, jr + seq![end]));
            assert forall|k: int| 0 <= k < rest.len() implies arg_token(#[trigger] rest[k]) by {
                assert(rest[k] == args[k + 1]);
            }
            lemma_run_args(w2, rest, end);
            assert(w2.final_action =~= w.final_action + a + seq![SPACE]);
            assert(w2.final_action + jr =~= w.final_action + j);
            if quoted_arg(a) {
                assert(w2.args =~= w.args + seq![arg_text(a), arg_text(Seq::empty())]);
            } else {
                assert(w2.args =~= w.args + seq![arg_text(a)]);
            }
            assert(w2.args + args_read(rest) =~= expected.args);
            assert(run(w2) =~= expected);
        }
    }
}

/// A receiver at the start of a message that reads a whole text message,
/// whose arguments may be unquoted or quoted tokens of any length, ends done
/// with the decoded action name, each token in full (quotes included) as an
/// argument (see `args_read`), and the message without its line break
/// appended to its result.
pub proof fn law_text_message(v: ReceiverView, name: Seq<u8>, args: Seq<Seq<u8>>, end: u8)
    requires
        backlog_holds(v, 0, text_message(name, args, end)),
        v.state == VcpReceptionState::Action,
        v.currently_parsing.len() == 0,
        forall|i: int| 0 <= i < name.len() ==> plain_name_byte(#[trigger] name[i]),
        valid_utf8(name),
        forall|k: int| 0 <= k < args.len() ==> arg_token(#[trigger] args[k]),
        end == CARRIAGE_RETURN || end == NEWLINE,
    ensures
        run(v) == (ReceiverView {
            final_action: v.final_action + name + seq![SPACE] + join_args(args),
            parsing_pos: v.parsing_pos + text_message(name, args, end).len(),
            state: VcpReceptionState::Done,
            action_name: decode_utf8(name),
            args: v.args + args_read(args),
            ..v
        }),
{
    let m = text_message(name, args, end);
    let n = name.len() as int;
    let p = v.parsing_pos;
    lemma_backlog_piece(v, m, 0, n);
    assert(m.subrange(0, n) =~= name);
    assert forall|i: int| 0 <= i < name.len() implies #[trigger] extends_token(
        token_view(v, name.take(i)),
        name[i],
    ) by {
        assert(plain_name_byte(name[i]));
    }
    lemma_run_token(v, name);
    let v1 = token_view(v, name);
    assert(v1.currently_parsing =~= name);
    assert(v.backlog.subrange(p, p + m.len())[n] == v.backlog[p + n]);
    assert(m[n] == SPACE);
    let v2 = step(v1);
    assert(v2.state == VcpReceptionState::UnQuotedArg);
    let rest = join_args(args) + seq![end];
    lemma_backlog_piece(v, m, n + 1, rest.len() as int);
    assert(m.subrange(n + 1, n + 1 + rest.len()) =~= rest);
    assert(backlog_holds(v2, 0, rest));
    lemma_run_args(v2, args, end);
    assert(v2.final_action + join_args(args) =~= v.final_action + name + seq![SPACE] + join_args(
        args,
    ));
    assert(run(v2) =~= (ReceiverView {
        final_action: v.final_action + name + seq![SPACE] + join_args(args),
        parsing_pos: v.parsing_pos + m.len(),
        state: VcpReceptionState::Done,
        action_name: decode_utf8(name),
        args: v.args + args_read(args),
        ..v
    }));
}

} // verus!
