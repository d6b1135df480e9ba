//! Routing of the output ports of a node to the input ports of its receivers.

use crate::error::OutgoingError;
use std::collections::BTreeMap;
use tokio::sync::mpsc::{Receiver, Sender};
use vstd::prelude::*;

verus! {

#[verifier::external_type_specification]
#[verifier::external_body]
#[verifier::reject_recursive_types(T)]
pub struct ExSender<T>(Sender<T>);

#[verifier::external_type_specification]
#[verifier::external_body]
#[verifier::reject_recursive_types(T)]
pub struct ExReceiver<T>(Receiver<T>);

/// `tokio::sync::mpsc::channel`: a new bounded channel. tokio panics for a zero buffer and for
/// one above its semaphore's most permits, `usize::MAX >> 3` (which is `usize::MAX / 8`).
#[verifier::external_body]
fn bounded_channel<T>(buffer: usize) -> (r: (Sender<T>, Receiver<T>))
    requires
        0 < buffer <= usize::MAX / 8,
{
    tokio::sync::mpsc::channel(buffer)
}

/// `tokio::sync::mpsc::Sender::is_closed`: whether the receiving half has gone. It depends on
/// the other half at the time of the call, so nothing is stated of the result.
#[verifier::external_body]
fn sender_is_closed<T>(tx: &Sender<T>) -> (r: bool) {
    tx.is_closed()
}

/// A message that records the input port it is delivered to.
pub trait OutgoingMessage {
    fn set_port(&mut self, port: u8);
}

impl OutgoingMessage for () {
    fn set_port(&mut self, _port: u8) {
    }
}

/// The receiving half of a channel to a node.
#[derive(Debug)]
#[verifier::reject_recursive_types(T)]
pub struct Incoming<T> {
    inner: Receiver<T>,
}

impl<T> Incoming<T> {
    /// The receiver that this receiving half holds.
    pub closed spec fn spec_receiver(&self) -> Receiver<T> {
        self.inner
    }

    pub fn new(rx: Receiver<T>) -> (r: Incoming<T>)
        ensures
            r.spec_receiver() == rx,
    {
        Incoming { inner: rx }
    }

    /// The receiver, to wait on its next message.
    pub fn receiver_mut(&mut self) -> (r: &mut Receiver<T>)
        ensures
            *r == old(self).spec_receiver(),
            final(self).spec_receiver() == *final(r),
    {
        &mut self.inner
    }
}

/// A new channel with room for `buffer` messages: its sending half, with one output port that
/// feeds input port 0, and its receiving half.
pub fn channel<T>(buffer: usize) -> (r: (Outgoing<T>, Incoming<T>))
    requires
        0 < buffer <= usize::MAX / 8,
    ensures
        r.0.channels() == 1,
        r.0.port_map_view() == Map::<u8, u8>::empty().insert(0u8, 0u8),
{
    let (tx, rx) = bounded_channel(buffer);
    (Outgoing::new(tx), Incoming::new(rx))
}

/// The port map after output ports `next`, `next + 1`, ... (`n` of them, as `u8`) were mapped
/// in turn to the input ports that `src` gives for `0`, `1`, ...
pub open spec fn merged_ports(m: Map<u8, u8>, next: int, src: Map<u8, u8>, n: int) -> Map<u8, u8>
    decreases n,
{
    if n <= 0 {
        m
    } else {
        merged_ports(m, next, src, n - 1).insert(((next + n - 1) % 256) as u8, src[(n - 1) as u8])
    }
}

/// The port map after output ports `next`, `next + 1`, ... (`n` of them, as `u8`) were all
/// mapped to `input`.
pub open spec fn ports_to(m: Map<u8, u8>, next: int, input: u8, n: int) -> Map<u8, u8>
    decreases n,
{
    if n <= 0 {
        m
    } else {
        ports_to(m, next, input, n - 1).insert(((next + n - 1) % 256) as u8, input)
    }
}

/// What an `Outgoing` routes: its number of channels and its map from output ports to input
/// ports.
pub struct PortsModel {
    pub channels: nat,
    pub ports: Map<u8, u8>,
}

/// The sending half of the channels to the receivers of a node: one channel per output port,
/// and for each output port the input port of the receiver that it feeds.
#[derive(Debug)]
#[verifier::reject_recursive_types(T)]
pub struct Outgoing<T> {
    inner: Vec<Sender<T>>,
    /// key = self output port, value = target input port.
    port_map: BTreeMap<u8, u8>,
}

impl<T> Outgoing<T> {
    /// Every output port below the number of channels (all of them, beyond 256 channels) is
    /// mapped, and no other.
    #[verifier::type_invariant]
    closed spec fn ports_mapped(self) -> bool {
        forall|k: u8| #[trigger] self.port_map@.contains_key(k) <==> (k as int) < self.inner@.len()
    }

    /// The number of channels.
    pub closed spec fn channels(&self) -> nat {
        self.inner@.len()
    }

    /// The map from output ports to input ports.
    pub closed spec fn port_map_view(&self) -> Map<u8, u8> {
        self.port_map@
    }

    /// The channel of each output port, in port order.
    pub closed spec fn senders(&self) -> Seq<Sender<T>> {
        self.inner@
    }

    /// No channel.
    pub fn empty() -> (r: Outgoing<T>)
        ensures
            r.channels() == 0,
            r.port_map_view() == Map::<u8, u8>::empty(),
            r.senders() == Seq::<Sender<T>>::empty(),
    {
        Outgoing { inner: Vec::new(), port_map: BTreeMap::new() }
    }

    /// One channel, whose output port 0 feeds input port 0.
    pub fn new(tx: Sender<T>) -> (r: Outgoing<T>)
        ensures
            r.channels() == 1,
            r.port_map_view() == Map::<u8, u8>::empty().insert(0u8, 0u8),
            r.senders() == seq![tx],
    {
        let mut port_map = BTreeMap::new();
        port_map.insert(0u8, 0u8);
        let mut inner = Vec::new();
        inner.push(tx);
        proof {
            assert(port_map@ =~= Map::<u8, u8>::empty().insert(0u8, 0u8));
        }
        Outgoing { inner, port_map }
    }

    /// Adds the channels of `tx` after those of `self`; each keeps the input port it fed.
    pub fn merge(&mut self, tx: Outgoing<T>)
        requires
            tx.channels() < 256,
            old(self).channels() + tx.channels() <= usize::MAX,
        ensures
            final(self).channels() == old(self).channels() + tx.channels(),
            final(self).port_map_view() == merged_ports(
                old(self).port_map_view(),
                old(self).channels() as int,
                tx.port_map_view(),
                tx.channels() as int,
            ),
            final(self).senders() == old(self).senders() + tx.senders(),
            forall|p: int|
                0 <= p < old(self).channels() ==> #[trigger] final(self).spec_sender(p)
                    == old(self).spec_sender(p),
            forall|j: int|
                0 <= j < tx.channels() ==> final(self).spec_sender(old(self).channels() + j)
                    == #[trigger] tx.spec_sender(j),
    {
        proof {
            use_type_invariant(&*self);
            use_type_invariant(&tx);
        }
        let Outgoing { inner: mut other, port_map: other_map } = tx;
        let next = self.inner.len();
        let n = other.len();
        let ghost m0 = self.port_map@;
        let mut map = self.port_map.clone();
        let mut inner_idx: u8 = 0;
        let mut i: usize = next;
        while i < next + n
            invariant
                next == self.inner@.len(),
                n == other@.len(),
                n < 256,
                next + n <= usize::MAX,
                next <= i <= next + n,
                inner_idx as int == i - next,
                forall|k: u8| #[trigger] other_map@.contains_key(k) <==> (k as int) < n,
                forall|k: u8| #[trigger] m0.contains_key(k) <==> (k as int) < next,
                map@ == merged_ports(m0, next as int, other_map@, i - next),
            decreases next + n - i,
        {
            let target = *other_map.get(&inner_idx).unwrap();
            let key = i as u8;
            proof {
                assert(key == ((i % 256) as u8)) by (bit_vector)
                    requires
                        key == i as u8;
            }
            map.insert(key, target);
            inner_idx = inner_idx + 1;
            i = i + 1;
        }
        let mut this = Outgoing::empty();
        std::mem::swap(self, &mut this);
        let Outgoing { inner: mut channels, port_map: _ } = this;
        channels.append(&mut other);
        proof {
            assert forall|k: u8| #[trigger] map@.contains_key(k) <==> (k as int)
                < channels@.len() by {
                lemma_merged_ports_dom(m0, next as int, other_map@, n as int, k);
            }
        }
        *self = Outgoing { inner: channels, port_map: map };
    }

    /// Adds the channels of `tx` after those of `self`, all feeding `input_port`.
    pub fn merge_by(&mut self, input_port: u8, tx: Outgoing<T>)
        requires
            old(self).channels() + tx.channels() <= usize::MAX,
        ensures
            final(self).channels() == old(self).channels() + tx.channels(),
            final(self).port_map_view() == ports_to(
                old(self).port_map_view(),
                old(self).channels() as int,
                input_port,
                tx.channels() as int,
            ),
            final(self).senders() == old(self).senders() + tx.senders(),
            forall|p: int|
                0 <= p < old(self).channels() ==> #[trigger] final(self).spec_sender(p)
                    == old(self).spec_sender(p),
            forall|j: int|
                0 <= j < tx.channels() ==> final(self).spec_sender(old(self).channels() + j)
                    == #[trigger] tx.spec_sender(j),
    {
        proof {
            use_type_invariant(&*self);
            use_type_invariant(&tx);
        }
        let Outgoing { inner: mut other, port_map: _ } = tx;
        let next = self.inner.len();
        let n = other.len();
        let ghost m0 = self.port_map@;
        let mut map = self.port_map.clone();
        let mut i: usize = next;
        while i < next + n
            invariant
                next == self.inner@.len(),
                n == other@.len(),
                next + n <= usize::MAX,
                next <= i <= next + n,
                forall|k: u8| #[trigger] m0.contains_key(k) <==> (k as int) < next,
                map@ == ports_to(m0, next as int, input_port, i - next),
            decreases next + n - i,
        {
            let key = i as u8;
            proof {
                assert(key == ((i % 256) as u8)) by (bit_vector)
                    requires
                        key == i as u8;
            }
            map.insert(key, input_port);
            i = i + 1;
        }
        let mut this = Outgoing::empty();
        std::mem::swap(self, &mut this);
        let Outgoing { inner: mut channels, port_map: _ } = this;
        channels.append(&mut other);
        proof {
            assert forall|k: u8| #[trigger] map@.contains_key(k) <==> (k as int)
                < channels@.len() by {
                lemma_ports_to_dom(m0, next as int, input_port, n as int, k);
            }
        }
        *self = Outgoing { inner: channels, port_map: map };
    }

    /// The input port that an output port feeds (0 for an output port without a channel).
    pub fn target_input_port(&self, output_port: u8) -> (r: u8)
        ensures
            r == if self.port_map_view().contains_key(output_port) {
                self.port_map_view()[output_port]
            } else {
                0u8
            },
    {
        match self.port_map.get(&output_port) {
            Some(p) => *p,
            None => 0,
        }
    }

    /// The input port that a message sent on `port` is delivered to, or the error for an
    /// output port without a channel.
    pub fn route(&self, port: u8) -> (r: Result<u8, OutgoingError>)
        ensures
            match r {
                Ok(p) => (port as int) < self.channels() && p == self.port_map_view()[port],
                Err(e) => (port as int) >= self.channels() && e == (OutgoingError::NotFoundOutputPort {
                    port,
                }),
            },
    {
        proof {
            use_type_invariant(self);
        }
        if (port as usize) >= self.inner.len() {
            return Err(OutgoingError::not_found_output_port(port));
        }
        Ok(self.target_input_port(port))
    }

    /// The number of channels.
    pub fn len(&self) -> (r: usize)
        ensures
            r == self.channels(),
    {
        self.inner.len()
    }

    /// The channel kept for output port `port`.
    pub closed spec fn spec_sender(&self, port: int) -> Sender<T> {
        self.senders()[port]
    }

    /// The channel of an output port.
    pub fn sender(&self, port: usize) -> (r: &Sender<T>)
        requires
            port < self.channels(),
        ensures
            *r == self.spec_sender(port as int),
    {
        &self.inner[port]
    }

    /// Whether the receiver of output port 0 has gone.
    pub fn is_closed(&self) -> (r: bool)
        requires
            self.channels() > 0,
    {
        sender_is_closed(self.sender(0))
    }

    /// Whether the receiver of an output port has gone, or `Err` for a port without a channel.
    pub fn is_closed_at(&self, port: u8) -> (r: Result<bool, ()>)
        ensures
            r is Err <==> (port as int) >= self.channels(),
    {
        if (port as usize) >= self.inner.len() {
            return Err(());
        }
        Ok(sender_is_closed(&self.inner[port as usize]))
    }

    /// The output ports, in increasing order.
    pub fn ports(&self) -> (r: OutgoingPortIter)
        ensures
            r.remaining() == Seq::new(
                if self.channels() < 256 {
                    self.channels()
                } else {
                    256
                },
                |i: int| i as u8,
            ),
    {
        let n = self.inner.len();
        let mut ports: Vec<u8> = Vec::new();
        let mut k: usize = 0;
        while k < n && k < 256
            invariant
                n == self.inner@.len(),
                k <= 256,
                k <= n,
                ports@ == Seq::new(k as nat, |i: int| i as u8),
            decreases 256 - k,
        {
            ports.push(k as u8);
            k = k + 1;
            proof {
                assert(ports@ =~= Seq::new(k as nat, |i: int| i as u8));
            }
        }
        OutgoingPortIter { ports, idx: 0 }
    }

    /// The number of output ports (at most 256).
    pub fn ports_len(&self) -> (r: usize)
        ensures
            r == self.port_map_view().len(),
    {
        broadcast use vstd::std_specs::btree::group_btree_axioms;

        self.port_map.len()
    }
}

impl<T> View for Outgoing<T> {
    type V = PortsModel;

    open spec fn view(&self) -> PortsModel {
        PortsModel { channels: self.channels(), ports: self.port_map_view() }
    }
}

impl<T> Clone for Outgoing<T> {
    fn clone(&self) -> (r: Outgoing<T>)
        ensures
            r.channels() == self.channels(),
            r.port_map_view() == self.port_map_view(),
            forall|p: int|
                0 <= p < self.channels() ==> cloned::<Sender<T>>(
                    self.spec_sender(p),
                    #[trigger] r.spec_sender(p),
                ),
    {
        proof {
            use_type_invariant(self);
        }
        Outgoing { inner: self.inner.clone(), port_map: self.port_map.clone() }
    }
}

proof fn lemma_merged_ports_dom(m: Map<u8, u8>, next: int, src: Map<u8, u8>, n: int, k: u8)
    requires
        0 <= n,
        0 <= next,
        forall|j: u8| #[trigger] m.contains_key(j) <==> (j as int) < next,
    ensures
        merged_ports(m, next, src, n).contains_key(k) <==> (k as int) < next + n,
    decreases n,
{
    if n > 0 {
        lemma_merged_ports_dom(m, next, src, n - 1, k);
        let i = next + n - 1;
        if (k as int) < next + n && !((k as int) < next + n - 1) {
            assert(k as int == i);
            assert(((i % 256) as u8) == k);
        }
    }
}

proof fn lemma_ports_to_dom(m: Map<u8, u8>, next: int, input: u8, n: int, k: u8)
    requires
        0 <= n,
        0 <= next,
        forall|j: u8| #[trigger] m.contains_key(j) <==> (j as int) < next,
    ensures
        ports_to(m, next, input, n).contains_key(k) <==> (k as int) < next + n,
    decreases n,
{
    if n > 0 {
        lemma_ports_to_dom(m, next, input, n - 1, k);
        let i = next + n - 1;
        if (k as int) < next + n && !((k as int) < next + n - 1) {
            assert(k as int == i);
            assert(((i % 256) as u8) == k);
        }
    }
}

/// The output ports of an `Outgoing`, walked in order.
pub struct OutgoingPortIter {
    ports: Vec<u8>,
    idx: usize,
}

impl OutgoingPortIter {
    /// The ports not walked yet.
    pub closed spec fn remaining(&self) -> Seq<u8> {
        if self.idx <= self.ports@.len() {
            self.ports@.subrange(self.idx as int, self.ports@.len() as int)
        } else {
            Seq::empty()
        }
    }

    /// The next port.
    pub fn next(&mut self) -> (r: Option<u8>)
        ensures
            old(self).remaining().len() == 0 ==> r is None && final(self).remaining().len() == 0,
            old(self).remaining().len() > 0 ==> r == Some(old(self).remaining()[0])
                && final(self).remaining() == old(self).remaining().drop_first(),
    {
        if self.idx < self.ports.len() {
            let r = self.ports[self.idx];
            self.idx = self.idx + 1;
            proof {
                assert(self.remaining() =~= old(self).remaining().drop_first());
            }
            Some(r)
        } else {
            None
        }
    }
}

} // verus!

verus! {

/// After a merge within the 256 ports, every output port of `self` keeps the input port it
/// fed, and output port `next + j` feeds the input port that port `j` of the merged channels
/// fed.
pub proof fn law_merge_routes(m: Map<u8, u8>, next: int, src: Map<u8, u8>, n: int, k: u8)
    requires
        0 <= next,
        0 <= n,
        next + n <= 256,
    ensures
        (k as int) < next ==> merged_ports(m, next, src, n).contains_key(k) == m.contains_key(k)
            && merged_ports(m, next, src, n)[k] == m[k],
        next <= (k as int) < next + n ==> merged_ports(m, next, src, n).contains_key(k)
            && merged_ports(m, next, src, n)[k] == src[(k - next) as u8],
    decreases n,
{
    if n > 0 {
        law_merge_routes(m, next, src, n - 1, k);
        let i = next + n - 1;
        assert((i % 256) == i);
        if (k as int) != i {
            assert(((i % 256) as u8) != k);
        }
    }
}

/// After a merge towards one input port within the 256 ports, every output port of `self`
/// keeps the input port it fed, and the new output ports feed `input`.
pub proof fn law_merge_by_routes(m: Map<u8, u8>, next: int, input: u8, n: int, k: u8)
    requires
        0 <= next,
        0 <= n,
        next + n <= 256,
    ensures
        (k as int) < next ==> ports_to(m, next, input, n).contains_key(k) == m.contains_key(k)
            && ports_to(m, next, input, n)[k] == m[k],
        next <= (k as int) < next + n ==> ports_to(m, next, input, n).contains_key(k)
            && ports_to(m, next, input, n)[k] == input,
    decreases n,
{
    if n > 0 {
        law_merge_by_routes(m, next, input, n - 1, k);
        let i = next + n - 1;
        assert((i % 256) == i);
        if (k as int) != i {
            assert(((i % 256) as u8) != k);
        }
    }
}

} // verus!
