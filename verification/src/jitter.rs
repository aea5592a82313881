use vstd::prelude::*;
use std::collections::BTreeMap;
use std::collections::VecDeque;
use crate::bytes::copy_bytes;
use vstd::std_specs::cmp::OrdSpec;
use vstd::std_specs::iter::IteratorSpec;
use vstd::std_specs::btree::{increasing_seq, spec_keys_iter};
use vstd::laws_cmp::obeys_cmp;

verus! {

/// How many snapshots a jitter buffer keeps.
pub const SNAPSHOT_CAPACITY: usize = 10;

/// The counters of a connection at one moment.
pub struct NetworkSnapshot {
    pub packets_received: u64,
    pub highest_packet_nr: u64,
}

impl NetworkSnapshot {
    pub fn new(packets_received: u64, highest_packet_nr: u64) -> (s: Self)
        ensures
            s.packets_received == packets_received,
            s.highest_packet_nr == highest_packet_nr,
    {
        Self { packets_received: packets_received, highest_packet_nr: highest_packet_nr }
    }
}

/// The media packets of one connection, by packet number, with counters
/// and a short history of them.
pub struct JitterBuffer {
    buffer: BTreeMap<u64, Vec<u8>>,
    last_popped: u64,
    highest_packet_nr: u64,
    total_received_packets: u64,
    snapshots: VecDeque<NetworkSnapshot>,
    added_packet_nrs: Ghost<Set<u64>>,
    handed_out: Ghost<nat>,
}

/// The abstract state of a jitter buffer.
#[verifier::ext_equal]
pub struct JitterView {
    /// The packets held, by packet number.
    pub buffer: Map<u64, Seq<u8>>,
    pub last_popped: u64,
    /// The highest packet number ever added.
    pub highest_packet_nr: u64,
    /// How many packets were added under a number not held at the time.
    pub total_received_packets: u64,
    /// The snapshots, oldest first.
    pub snapshots: Seq<NetworkSnapshot>,
    /// Every packet number ever added.
    pub added_packet_nrs: Set<u64>,
    /// How many packets `pop_first` has handed out.
    pub handed_out: nat,
}

impl View for JitterBuffer {
    type V = JitterView;

    closed spec fn view(&self) -> JitterView {
        JitterView {
            buffer: self.buffer@.map_values(|d: Vec<u8>| d@),
            last_popped: self.last_popped,
            highest_packet_nr: self.highest_packet_nr,
            total_received_packets: self.total_received_packets,
            snapshots: self.snapshots@,
            added_packet_nrs: self.added_packet_nrs@,
            handed_out: self.handed_out@,
        }
    }
}

/// The counters agree with the packets: every packet counted as received
/// is either held or was handed out, and the highest packet number is the
/// largest number ever added (0 before any), so no held number exceeds it.
pub open spec fn counters_consistent(v: JitterView) -> bool {
    &&& v.buffer.dom().finite()
    &&& v.total_received_packets == v.buffer.dom().len() + v.handed_out
    &&& v.buffer.dom().subset_of(v.added_packet_nrs)
    &&& forall|k: u64| #[trigger] v.added_packet_nrs.contains(k) ==> k <= v.highest_packet_nr
    &&& v.highest_packet_nr == 0 || v.added_packet_nrs.contains(v.highest_packet_nr)
}

/// With consistent counters, no packet held has a number above the highest.
pub proof fn law_held_at_most_highest(v: JitterView)
    requires
        counters_consistent(v),
    ensures
        forall|k: u64| #[trigger] v.buffer.contains_key(k) ==> k <= v.highest_packet_nr,
{
    assert forall|k: u64| #[trigger] v.buffer.contains_key(k) implies k <= v.highest_packet_nr by {
        assert(v.added_packet_nrs.contains(k));
    }
}

/// The loss report counts in full: with at least two snapshots, `expected`
/// is the span of packet numbers between the oldest and the newest snapshot
/// (plus one), a fraction is reported exactly when fewer packets arrived in
/// that time, and then the lost and the arrived packets add up to `expected`.
pub proof fn law_packet_loss_counts(v: JitterView)
    requires
        snapshots_in_order(v),
        v.snapshots.len() >= 2 ==> v.snapshots.last().highest_packet_nr
            - v.snapshots[0].highest_packet_nr < u64::MAX,
    ensures
        v.snapshots.len() < 2 <==> packet_loss_of(v) is NoSnapshots,
        v.snapshots.len() >= 2 ==> ({
            let arrived = v.snapshots.last().packets_received - v.snapshots[0].packets_received;
            let span = v.snapshots.last().highest_packet_nr - v.snapshots[0].highest_packet_nr + 1;
            &&& 0 <= arrived
            &&& 1 <= span
            &&& packet_loss_of(v) is Full <==> arrived >= span
            &&& packet_loss_of(v) matches PacketLoss::Fraction { lost, expected } ==> {
                &&& expected == span
                &&& lost + arrived == span
                &&& lost >= 1
            }
        }),
{
    if v.snapshots.len() >= 2 {
        let n = v.snapshots.len() as int;
        assert(v.snapshots[0].packets_received <= v.snapshots[n - 1].packets_received);
        assert(v.snapshots[0].highest_packet_nr <= v.snapshots[n - 1].highest_packet_nr);
    }
}

/// Adding a packet stores it under its number and leaves every other held
/// packet as it was, whatever the number; the highest number becomes at
/// least the packet's, and the received count grows by one exactly when the
/// number was not held.
pub proof fn law_add_stores(v: JitterView, packet_nr: u64, packet: Seq<u8>)
    requires
        v.buffer.contains_key(packet_nr) || v.total_received_packets < u64::MAX,
    ensures
        after_add(v, packet_nr, packet).buffer.contains_key(packet_nr),
        after_add(v, packet_nr, packet).buffer[packet_nr] == packet,
        forall|k: u64|
            k != packet_nr ==> (#[trigger] after_add(v, packet_nr, packet).buffer.contains_key(k)
                <==> v.buffer.contains_key(k)),
        forall|k: u64|
            k != packet_nr && #[trigger] v.buffer.contains_key(k) ==> after_add(
                v,
                packet_nr,
                packet,
            ).buffer[k] == v.buffer[k],
        after_add(v, packet_nr, packet).highest_packet_nr >= packet_nr,
        after_add(v, packet_nr, packet).highest_packet_nr >= v.highest_packet_nr,
        after_add(v, packet_nr, packet).highest_packet_nr == packet_nr
            || after_add(v, packet_nr, packet).highest_packet_nr == v.highest_packet_nr,
        after_add(v, packet_nr, packet).total_received_packets == v.total_received_packets + (if v.buffer.contains_key(
            packet_nr,
        ) {
            0int
        } else {
            1int
        }),
        after_add(v, packet_nr, packet).last_popped == v.last_popped,
        after_add(v, packet_nr, packet).snapshots == v.snapshots,
{
}

/// Taking a snapshot always records the current counters as the newest
/// snapshot: the history grows by one up to ten, and the older snapshots
/// kept are the newest ones of before, in order.
pub proof fn law_snapshot_records_counters(s: Seq<NetworkSnapshot>, n: NetworkSnapshot)
    requires
        s.len() <= SNAPSHOT_CAPACITY,
    ensures
        snapshots_after(s, n).len() == if s.len() < SNAPSHOT_CAPACITY {
            (s.len() + 1) as int
        } else {
            SNAPSHOT_CAPACITY as int
        },
        snapshots_after(s, n).last() == n,
        snapshots_after(s, n).drop_last() == s.skip(s.len() + 1 - snapshots_after(s, n).len()),
{
    let r = snapshots_after(s, n);
    assert(r.drop_last() =~= s.skip(s.len() + 1 - r.len()));
}

/// The buffer after `add_packet(packet_nr, packet)`.
pub open spec fn after_add(v: JitterView, packet_nr: u64, packet: Seq<u8>) -> JitterView {
    JitterView {
        buffer: v.buffer.insert(packet_nr, packet),
        highest_packet_nr: if packet_nr > v.highest_packet_nr {
            packet_nr
        } else {
            v.highest_packet_nr
        },
        total_received_packets: if v.buffer.contains_key(packet_nr) {
            v.total_received_packets
        } else {
            (v.total_received_packets + 1) as u64
        },
        added_packet_nrs: v.added_packet_nrs.insert(packet_nr),
        ..v
    }
}

/// At most ten snapshots are kept; their counters never go down from one
/// snapshot to the next, and none is ahead of the buffer's own counters.
pub open spec fn snapshots_in_order(v: JitterView) -> bool {
    &&& v.snapshots.len() <= SNAPSHOT_CAPACITY
    &&& forall|i: int, j: int|
        0 <= i <= j < v.snapshots.len() ==> {
            &&& (#[trigger] v.snapshots[i]).packets_received <= (
            #[trigger] v.snapshots[j]).packets_received
            &&& v.snapshots[i].highest_packet_nr <= v.snapshots[j].highest_packet_nr
        }
    &&& forall|i: int|
        0 <= i < v.snapshots.len() ==> {
            &&& (#[trigger] v.snapshots[i]).packets_received <= v.total_received_packets
            &&& v.snapshots[i].highest_packet_nr <= v.highest_packet_nr
        }
}

/// The share of packets lost between the oldest and the newest snapshot.
pub enum PacketLoss {
    /// Fewer than two snapshots: nothing to compare (a loss of 0 %).
    NoSnapshots,
    /// `lost` of `expected` packets did not arrive.
    Fraction { lost: u64, expected: u64 },
    /// At least as many packets arrived as numbers were expected (reported as 100 %).
    Full,
}

/// What `calculate_packet_loss` reports for a buffer.
pub open spec fn packet_loss_of(v: JitterView) -> PacketLoss {
    let s = v.snapshots;
    if s.len() < 2 {
        PacketLoss::NoSnapshots
    } else {
        let expected = s.last().highest_packet_nr - s[0].highest_packet_nr + 1;
        let received = s.last().packets_received - s[0].packets_received;
        if received < expected {
            PacketLoss::Fraction { lost: (expected - received) as u64, expected: expected as u64 }
        } else {
            PacketLoss::Full
        }
    }
}

/// `nr` is the lowest packet number held in `before`, `data` its packet, and
/// `after` holds the other packets.
pub open spec fn pops_lowest(
    before: Map<u64, Seq<u8>>,
    nr: u64,
    data: Seq<u8>,
    after: Map<u64, Seq<u8>>,
) -> bool {
    &&& before.contains_key(nr)
    &&& data == before[nr]
    &&& forall|k: u64| #[trigger] before.contains_key(k) ==> nr <= k
    &&& after == before.remove(nr)
}

/// A packet added under a number below every number held is the one handed
/// out next, and handing it out leaves the buffer as it was before the add.
pub proof fn law_add_then_pop_lowest(
    held: Map<u64, Seq<u8>>,
    nr: u64,
    packet: Seq<u8>,
    out_nr: u64,
    out_data: Seq<u8>,
    after: Map<u64, Seq<u8>>,
)
    requires
        forall|k: u64| #[trigger] held.contains_key(k) ==> nr < k,
        pops_lowest(held.insert(nr, packet), out_nr, out_data, after),
    ensures
        out_nr == nr,
        out_data == packet,
        after == held,
{
    assert(held.insert(nr, packet).contains_key(nr));
    assert(out_nr <= nr);
    if out_nr != nr {
        assert(held.contains_key(out_nr));
    }
    assert(after =~= held);
}

/// The snapshots after one more is taken: the oldest goes when ten are kept.
pub open spec fn snapshots_after(s: Seq<NetworkSnapshot>, n: NetworkSnapshot) -> Seq<NetworkSnapshot> {
    if s.len() == SNAPSHOT_CAPACITY {
        s.drop_first().push(n)
    } else {
        s.push(n)
    }
}

impl JitterBuffer {
    #[verifier::type_invariant]
    spec fn inv(&self) -> bool {
        snapshots_in_order(self@) && counters_consistent(self@)
    }

    /// A buffer with no packets and no snapshot space, to stand in while a
    /// buffer is taken apart.
    fn empty() -> (b: Self)
        ensures
            b@.buffer == Map::<u64, Seq<u8>>::empty(),
    {
        let buffer: BTreeMap<u64, Vec<u8>> = BTreeMap::new();
        assert(buffer@.map_values(|d: Vec<u8>| d@) =~= Map::empty());
        assert(Map::<u64, Seq<u8>>::empty().dom() =~= Set::empty());
        let b = Self {
            buffer,
            last_popped: 0,
            highest_packet_nr: 0,
            total_received_packets: 0,
            snapshots: VecDeque::new(),
            added_packet_nrs: Ghost(Set::empty()),
            handed_out: Ghost(0),
        };
        assert(b@.buffer =~= Map::empty());
        b
    }

    /// An empty buffer with all counters at zero.
    pub fn new() -> (b: Self)
        ensures
            b@ == (JitterView {
                buffer: Map::empty(),
                last_popped: 0,
                highest_packet_nr: 0,
                total_received_packets: 0,
                snapshots: Seq::empty(),
                added_packet_nrs: Set::empty(),
                handed_out: 0,
            }),
            snapshots_in_order(b@),
            counters_consistent(b@),
    {
        let buffer: BTreeMap<u64, Vec<u8>> = BTreeMap::new();
        assert(buffer@.map_values(|d: Vec<u8>| d@) =~= Map::empty());
        assert(Map::<u64, Seq<u8>>::empty().dom() =~= Set::empty());
        let b = Self {
            buffer,
            last_popped: 0,
            highest_packet_nr: 0,
            snapshots: VecDeque::with_capacity(SNAPSHOT_CAPACITY),
            total_received_packets: 0,
            added_packet_nrs: Ghost(Set::empty()),
            handed_out: Ghost(0),
        };
        assert(b@.buffer =~= Map::empty());
        b
    }

    /// The number of the packet handed out last.
    pub fn last_popped(&self) -> (r: u64)
        ensures
            r == self@.last_popped,
    {
        self.last_popped
    }

    /// Whether `add_packet` may store a packet under `packet_nr`: its count
    /// of received packets must not overflow.
    pub fn can_add_packet(&self, packet_nr: u64) -> (r: bool)
        ensures
            r == (self@.buffer.contains_key(packet_nr) || self@.total_received_packets < u64::MAX),
    {
        self.buffer.contains_key(&packet_nr) || self.total_received_packets < u64::MAX
    }

    /// Whether `calculate_packet_loss` can count the packet numbers between
    /// the oldest and the newest snapshot without overflow.
    pub fn can_calculate_packet_loss(&self) -> (r: bool)
        ensures
            r == (self@.snapshots.len() >= 2 ==> self@.snapshots.last().highest_packet_nr
                - self@.snapshots[0].highest_packet_nr < u64::MAX),
    {
        proof {
            use_type_invariant(self);
        }
        let n = self.snapshots.len();
        if n < 2 {
            return true;
        }
        self.snapshots[n - 1].highest_packet_nr - self.snapshots[0].highest_packet_nr < u64::MAX
    }

    /// Stores a packet under its number, replacing one held under the same
    /// number, and updates the counters.
    pub fn add_packet(&mut self, packet_nr: u64, packet: &Vec<u8>)
        requires
            old(self)@.buffer.contains_key(packet_nr) || old(self)@.total_received_packets
                < u64::MAX,
        ensures
            final(self)@ == after_add(old(self)@, packet_nr, packet@),
            snapshots_in_order(final(self)@),
            counters_consistent(final(self)@),
    {
        let mut parts = JitterBuffer::empty();
        std::mem::swap(self, &mut parts);
        proof {
            use_type_invariant(&parts);
        }
        let JitterBuffer {
            mut buffer,
            last_popped,
            mut highest_packet_nr,
            mut total_received_packets,
            snapshots,
            added_packet_nrs,
            handed_out,
        } = parts;
        let ghost before = buffer@.map_values(|d: Vec<u8>| d@);
        if packet_nr > highest_packet_nr {
            highest_packet_nr = packet_nr;
        }
        let held = buffer.contains_key(&packet_nr);
        if !held {
            total_received_packets = total_received_packets + 1;
        }
        let data = copy_bytes(packet.as_slice());
        buffer.insert(packet_nr, data);
        let ghost after = buffer@.map_values(|d: Vec<u8>| d@);
        assert(after =~= before.insert(packet_nr, packet@));
        proof {
            if !held {
                assert(after.dom() =~= before.dom().insert(packet_nr));
            } else {
                assert(after.dom() =~= before.dom());
            }
        }
        *self = JitterBuffer {
            buffer,
            last_popped,
            highest_packet_nr,
            total_received_packets,
            snapshots,
            added_packet_nrs: Ghost(added_packet_nrs@.insert(packet_nr)),
            handed_out,
        };
        assert(self@ =~= after_add(old(self)@, packet_nr, packet@));
    }

    /// Records the counters as a new snapshot, dropping the oldest when ten
    /// are kept.
    pub fn take_snapshot(&mut self)
        ensures
            final(self)@ == (JitterView {
                snapshots: snapshots_after(
                    old(self)@.snapshots,
                    NetworkSnapshot {
                        packets_received: old(self)@.total_received_packets,
                        highest_packet_nr: old(self)@.highest_packet_nr,
                    },
                ),
                ..old(self)@
            }),
            snapshots_in_order(final(self)@),
            counters_consistent(final(self)@),
    {
        proof {
            use_type_invariant(&*self);
        }
        let mut snapshots = VecDeque::new();
        std::mem::swap(&mut snapshots, &mut self.snapshots);
        if snapshots.len() == SNAPSHOT_CAPACITY {
            snapshots.pop_front();
        }
        let snapshot = NetworkSnapshot::new(self.total_received_packets, self.highest_packet_nr);
        snapshots.push_back(snapshot);
        self.snapshots = snapshots;
        assert(self@ =~= (JitterView {
            snapshots: snapshots_after(
                old(self)@.snapshots,
                NetworkSnapshot {
                    packets_received: old(self)@.total_received_packets,
                    highest_packet_nr: old(self)@.highest_packet_nr,
                },
            ),
            ..old(self)@
        }));
        proof {
            use_type_invariant(&*self);
        }
    }

    /// Compares the oldest and the newest snapshot: how many packet numbers
    /// lie between their highest numbers, and how many of them arrived.
    pub fn calculate_packet_loss(&self) -> (r: PacketLoss)
        requires
            self@.snapshots.len() >= 2 ==> self@.snapshots.last().highest_packet_nr
                - self@.snapshots[0].highest_packet_nr < u64::MAX,
        ensures
            r == packet_loss_of(self@),
    {
        proof {
            use_type_invariant(self);
        }
        let n = self.snapshots.len();
        if n < 2 {
            return PacketLoss::NoSnapshots;
        }
        let current = &self.snapshots[n - 1];
        let oldest = &self.snapshots[0];
        let highest = current.highest_packet_nr;
        let lowest = oldest.highest_packet_nr;
        let expected_packets = highest - lowest + 1;
        let received_packets = current.packets_received - oldest.packets_received;
        if received_packets < expected_packets {
            let diff = expected_packets - received_packets;
            return PacketLoss::Fraction { lost: diff, expected: expected_packets };
        }
        PacketLoss::Full
    }

    /// Takes out the packet with the lowest number, if the buffer holds any.
    pub fn pop_first(&mut self) -> (r: Option<(u64, Vec<u8>)>)
        ensures
            match r {
                Some((nr, data)) => {
                    &&& pops_lowest(old(self)@.buffer, nr, data@, final(self)@.buffer)
                    &&& final(self)@ == (JitterView {
                        buffer: final(self)@.buffer,
                        handed_out: old(self)@.handed_out + 1,
                        ..old(self)@
                    })
                },
                None => {
                    &&& old(self)@.buffer =~= Map::empty()
                    &&& final(self)@ == old(self)@
                },
            },
            snapshots_in_order(final(self)@),
            counters_consistent(final(self)@),
    {
        proof {
            use_type_invariant(&*self);
        }
        let ghost all = spec_keys_iter(&self.buffer).remaining();
        let mut first: Option<u64> = None;
        for k in it: self.buffer.keys()
            invariant_except_break
                first is None,
                it.seq() == all,
                it.index() == 0,
            ensures
                match first {
                    Some(nr) => all.len() > 0 && nr == *all[0],
                    None => all.len() == 0,
                },
        {
            first = Some(*k);
            break;
        }
        proof {
            assert(all.unref().to_set() == self.buffer@.dom());
            assert(obeys_cmp::<u64>());
            assert(obeys_cmp::<&u64>());
            assert(increasing_seq(all));
            match first {
                Some(nr) => {
                    assert(all.unref()[0] == nr);
                    assert(all.unref().to_set().contains(nr));
                    assert forall|j: u64| #[trigger] self.buffer@.contains_key(j) implies nr <= j by {
                        assert(all.unref().to_set().contains(j));
                        let i = choose|i: int| 0 <= i < all.len() && *all[i] == j;
                        if i > 0 {
                            assert(OrdSpec::cmp_spec(&all[0], &all[i]) is Less);
                        }
                    }
                },
                None => {
                    assert(self.buffer@.dom() =~= Set::empty());
                },
            }
        }
        match first {
            None => {
                assert(self@.buffer =~= Map::empty());
                None
            },
            Some(nr) => {
                let mut parts = JitterBuffer::empty();
                std::mem::swap(self, &mut parts);
                proof {
                    use_type_invariant(&parts);
                }
                let JitterBuffer {
                    mut buffer,
                    last_popped,
                    highest_packet_nr,
                    total_received_packets,
                    snapshots,
                    added_packet_nrs,
                    handed_out,
                } = parts;
                let ghost before = buffer@.map_values(|d: Vec<u8>| d@);
                let removed = buffer.remove(&nr);
                let ghost after = buffer@.map_values(|d: Vec<u8>| d@);
                assert(after =~= before.remove(nr));
                assert(after.dom() =~= before.dom().remove(nr));
                *self = JitterBuffer {
                    buffer,
                    last_popped,
                    highest_packet_nr,
                    total_received_packets,
                    snapshots,
                    added_packet_nrs,
                    handed_out: Ghost(handed_out@ + 1),
                };
                match removed {
                    Some(data) => Some((nr, data)),
                    None => None,
                }
            },
        }
    }
}

} // verus!
