//! Resolving one host's hardware address: what to send, how many frames to
//! read, and which of them answers. The resolver decides; its caller owns
//! the channel, performs each action and hands back what happened.
//!
//! A received frame answers when it is an ARP reply for IPv4 over Ethernet
//! and names a sender hardware address other than the interface's own; the
//! interface's own broadcasts, which some channels hand back, are thereby
//! left aside. Any other frame, one too short to hold an ARP packet among
//! them, uses up one read. The addresses that a reply names as its sender's
//! and its target's protocol addresses are not held against the request: on
//! a channel shared by several resolutions the first reply of another
//! station is taken, whichever request it answers. A caller that resolves
//! several hosts at once gives each resolution a channel of its own or
//! hands each reply to the resolution that it answers.

use crate::addr::{Ipv4, MacAddr};
use crate::frame::{encode_arp_request, frame_bytes, frame_of_bytes, request_frame, ArpFrame};
use crate::iface::NetworkInterface;
use vstd::prelude::*;

verus! {

/// How many frames are read for one host unless the caller says otherwise.
pub const DEFAULT_ARP_ATTEMPTS: u32 = 2;

/// What is known of one host's hardware address. Where `resolved` is false
/// the hardware address is all zero.
#[derive(Clone, Copy, Debug, PartialEq, Eq, Structural)]
pub struct ArpBinding {
    pub ip_address: Ipv4,
    pub mac_address: MacAddr,
    pub resolved: bool,
}

impl ArpBinding {
    /// The binding of a host that gave no answer.
    pub open spec fn spec_unresolved(ip_address: Ipv4) -> ArpBinding {
        ArpBinding { ip_address, mac_address: MacAddr::spec_zero(), resolved: false }
    }

    /// The binding of a host known to have the given hardware address.
    pub open spec fn spec_resolved(ip_address: Ipv4, mac_address: MacAddr) -> ArpBinding {
        ArpBinding { ip_address, mac_address, resolved: true }
    }

    /// An unresolved binding carries the zero address.
    pub open spec fn wf(self) -> bool {
        !self.resolved ==> self.mac_address == MacAddr::spec_zero()
    }

    /// The binding of a host that gave no answer.
    #[verifier::when_used_as_spec(spec_unresolved)]
    pub fn unresolved(ip_address: Ipv4) -> (r: ArpBinding)
        ensures
            r == ArpBinding::spec_unresolved(ip_address),
    {
        ArpBinding { ip_address, mac_address: MacAddr::zero(), resolved: false }
    }

    /// The binding of a host known to have the given hardware address.
    #[verifier::when_used_as_spec(spec_resolved)]
    pub fn resolved(ip_address: Ipv4, mac_address: MacAddr) -> (r: ArpBinding)
        ensures
            r == ArpBinding::spec_resolved(ip_address, mac_address),
    {
        ArpBinding { ip_address, mac_address, resolved: true }
    }
}

/// What the caller of a resolver reports back.
#[derive(Debug)]
pub enum ArpEvent {
    /// The frame that was to be sent is on the wire.
    Sent,
    /// The frame could not be sent.
    SendFailed,
    /// A frame arrived within the time allowed.
    Frame(Vec<u8>),
    /// No frame arrived within the time allowed, or reading failed.
    TimedOut,
}

/// The mathematical content of an `ArpEvent`.
pub enum ArpEventView {
    Sent,
    SendFailed,
    Frame(Seq<u8>),
    TimedOut,
}

impl View for ArpEvent {
    type V = ArpEventView;

    open spec fn view(&self) -> ArpEventView {
        match self {
            ArpEvent::Sent => ArpEventView::Sent,
            ArpEvent::SendFailed => ArpEventView::SendFailed,
            ArpEvent::Frame(bytes) => ArpEventView::Frame(bytes@),
            ArpEvent::TimedOut => ArpEventView::TimedOut,
        }
    }
}

/// What a resolver asks of its caller.
#[derive(Debug)]
pub enum ArpAction {
    /// Transmit these bytes once, then report `Sent` or `SendFailed`.
    Send(Vec<u8>),
    /// Wait for one inbound frame for at most this long, then report `Frame`
    /// or `TimedOut`.
    Receive { timeout_ms: u64 },
    /// Nothing more to do: this is the answer.
    Done(ArpBinding),
}

/// The mathematical content of an `ArpAction`.
pub enum ArpActionView {
    Send(Seq<u8>),
    Receive { timeout_ms: u64 },
    Done(ArpBinding),
}

impl View for ArpAction {
    type V = ArpActionView;

    open spec fn view(&self) -> ArpActionView {
        match self {
            ArpAction::Send(bytes) => ArpActionView::Send(bytes@),
            ArpAction::Receive { timeout_ms } => ArpActionView::Receive { timeout_ms: *timeout_ms },
            ArpAction::Done(binding) => ArpActionView::Done(*binding),
        }
    }
}

/// Where a resolution stands.
#[derive(Clone, Copy, Debug, PartialEq, Eq, Structural)]
pub enum ArpPhase {
    /// The request is to be sent.
    Sending,
    /// The request is out and a frame is being waited for.
    Receiving,
    /// The answer is known.
    Finished,
}

/// The resolution of one target address on one interface.
#[derive(Clone, Copy, Debug, PartialEq, Eq, Structural)]
pub struct ArpResolver {
    pub own_mac: MacAddr,
    pub own_ip: Ipv4,
    pub target_ip: Ipv4,
    /// How many frames may be read at most.
    pub attempts: u32,
    /// How long each read may wait.
    pub per_attempt_timeout_ms: u64,
    pub phase: ArpPhase,
    /// How many reads have ended, with or without a frame.
    pub reads_done: u32,
    /// The answer once the phase is `Finished`; unresolved until then.
    pub binding: ArpBinding,
}

impl ArpResolver {
    /// The state in which a resolution starts. The interface's own address
    /// is answered here and now, with its own hardware address.
    pub open spec fn initial(
        own_mac: MacAddr,
        own_ip: Ipv4,
        target_ip: Ipv4,
        attempts: u32,
        per_attempt_timeout_ms: u64,
    ) -> ArpResolver {
        ArpResolver {
            own_mac,
            own_ip,
            target_ip,
            attempts,
            per_attempt_timeout_ms,
            phase: if target_ip == own_ip {
                ArpPhase::Finished
            } else {
                ArpPhase::Sending
            },
            reads_done: 0,
            binding: if target_ip == own_ip {
                ArpBinding::spec_resolved(target_ip, own_mac)
            } else {
                ArpBinding::spec_unresolved(target_ip)
            },
        }
    }

    /// The counters are within their bounds and the binding fits the phase.
    pub open spec fn wf(self) -> bool {
        &&& self.reads_done <= self.attempts
        &&& self.phase == ArpPhase::Receiving ==> self.reads_done < self.attempts
        &&& self.phase == ArpPhase::Sending ==> self.reads_done == 0
        &&& self.binding.ip_address == self.target_ip
        &&& self.binding.wf()
        &&& self.phase != ArpPhase::Finished ==> self.binding == ArpBinding::spec_unresolved(
            self.target_ip,
        )
    }

    /// The state in which the resolution has ended without an answer.
    pub open spec fn given_up(self) -> ArpResolver {
        ArpResolver {
            phase: ArpPhase::Finished,
            binding: ArpBinding::spec_unresolved(self.target_ip),
            ..self
        }
    }

    /// The state after one more read has ended without an answer.
    pub open spec fn missed(self) -> ArpResolver {
        if self.reads_done + 1 >= self.attempts {
            ArpResolver { reads_done: self.attempts, ..self.given_up() }
        } else {
            ArpResolver { reads_done: (self.reads_done + 1) as u32, ..self }
        }
    }

    /// Whether these bytes answer the request: they hold an ARP reply whose
    /// sender hardware address is not the interface's own.
    pub open spec fn answers(self, bytes: Seq<u8>) -> bool {
        &&& frame_of_bytes(bytes).is_some()
        &&& frame_of_bytes(bytes).unwrap().spec_is_reply()
        &&& frame_of_bytes(bytes).unwrap().arp.sender_hw_addr != self.own_mac
    }

    /// The state after `event`.
    ///
    /// While sending, `Sent` leads on to the first read, or to giving up
    /// where no read is allowed; anything else gives up. While receiving, a
    /// frame that answers ends the resolution with its sender hardware
    /// address; anything else uses up one read. Once finished, nothing
    /// changes.
    pub open spec fn next(self, event: ArpEventView) -> ArpResolver {
        match self.phase {
            ArpPhase::Finished => self,
            ArpPhase::Sending => match event {
                ArpEventView::Sent => if self.attempts == 0 {
                    self.given_up()
                } else {
                    ArpResolver { phase: ArpPhase::Receiving, ..self }
                },
                _ => self.given_up(),
            },
            ArpPhase::Receiving => match event {
                ArpEventView::Frame(bytes) => if self.answers(bytes) {
                    ArpResolver {
                        phase: ArpPhase::Finished,
                        reads_done: (self.reads_done + 1) as u32,
                        binding: ArpBinding::spec_resolved(
                            self.target_ip,
                            frame_of_bytes(bytes).unwrap().arp.sender_hw_addr,
                        ),
                        ..self
                    }
                } else {
                    self.missed()
                },
                _ => self.missed(),
            },
        }
    }

    /// What the resolver asks of its caller in this state.
    pub open spec fn pending(self) -> ArpActionView {
        match self.phase {
            ArpPhase::Sending => ArpActionView::Send(
                frame_bytes(request_frame(self.own_mac, self.own_ip, self.target_ip)),
            ),
            ArpPhase::Receiving => ArpActionView::Receive {
                timeout_ms: self.per_attempt_timeout_ms,
            },
            ArpPhase::Finished => ArpActionView::Done(self.binding),
        }
    }

    /// The state after a sequence of events, first one first.
    pub open spec fn run(self, events: Seq<ArpEventView>) -> ArpResolver
        decreases events.len(),
    {
        if events.len() == 0 {
            self
        } else {
            self.next(events[0]).run(events.drop_first())
        }
    }

    /// How many reads have been asked for so far.
    pub open spec fn reads_issued(self) -> int {
        self.reads_done + if self.phase == ArpPhase::Receiving {
            1int
        } else {
            0int
        }
    }

    /// The longest that the caller has been asked to wait so far, all reads
    /// together, in milliseconds.
    pub open spec fn wait_requested_ms(self) -> int {
        self.reads_issued() * self.per_attempt_timeout_ms
    }

    /// Starts the resolution of `target_ip` on `interface`, which answers
    /// for its first IPv4 address itself.
    pub fn start(
        interface: &NetworkInterface,
        target_ip: Ipv4,
        attempts: u32,
        per_attempt_timeout_ms: u64,
    ) -> (r: ArpResolver)
        requires
            interface@.ipv4.len() > 0,
        ensures
            r == ArpResolver::initial(
                interface.hardware_address,
                interface@.ipv4[0],
                target_ip,
                attempts,
                per_attempt_timeout_ms,
            ),
            r.wf(),
    {
        let own_ip: Ipv4 = interface.ipv4[0];
        let own_mac: MacAddr = interface.hardware_address;
        if target_ip == own_ip {
            ArpResolver {
                own_mac,
                own_ip,
                target_ip,
                attempts,
                per_attempt_timeout_ms,
                phase: ArpPhase::Finished,
                reads_done: 0,
                binding: ArpBinding::resolved(target_ip, own_mac),
            }
        } else {
            ArpResolver {
                own_mac,
                own_ip,
                target_ip,
                attempts,
                per_attempt_timeout_ms,
                phase: ArpPhase::Sending,
                reads_done: 0,
                binding: ArpBinding::unresolved(target_ip),
            }
        }
    }

    /// Starts the resolution of `target_ip` for a station with the given
    /// hardware and IPv4 address, which answers for its own address itself.
    pub fn start_between(
        own_mac: MacAddr,
        own_ip: Ipv4,
        target_ip: Ipv4,
        attempts: u32,
        per_attempt_timeout_ms: u64,
    ) -> (r: ArpResolver)
        ensures
            r == ArpResolver::initial(own_mac, own_ip, target_ip, attempts, per_attempt_timeout_ms),
            r.wf(),
    {
        let done: bool = target_ip == own_ip;
        ArpResolver {
            own_mac,
            own_ip,
            target_ip,
            attempts,
            per_attempt_timeout_ms,
            phase: if done {
                ArpPhase::Finished
            } else {
                ArpPhase::Sending
            },
            reads_done: 0,
            binding: if done {
                ArpBinding::resolved(target_ip, own_mac)
            } else {
                ArpBinding::unresolved(target_ip)
            },
        }
    }

    /// What the caller is to do now.
    pub fn action(&self) -> (a: ArpAction)
        ensures
            a@ == self.pending(),
    {
        match self.phase {
            ArpPhase::Sending => ArpAction::Send(
                encode_arp_request(self.own_mac, self.own_ip, self.target_ip),
            ),
            ArpPhase::Receiving => ArpAction::Receive { timeout_ms: self.per_attempt_timeout_ms },
            ArpPhase::Finished => ArpAction::Done(self.binding),
        }
    }

    /// Whether the answer is known.
    pub fn is_finished(&self) -> (r: bool)
        ensures
            r == (self.phase == ArpPhase::Finished),
    {
        self.phase == ArpPhase::Finished
    }

    /// The answer, once it is known.
    pub fn outcome(&self) -> (r: Option<ArpBinding>)
        ensures
            r == if self.phase == ArpPhase::Finished {
                Some(self.binding)
            } else {
                None
            },
    {
        if self.phase == ArpPhase::Finished {
            Some(self.binding)
        } else {
            None
        }
    }

    fn give_up(&mut self)
        ensures
            *final(self) == old(self).given_up(),
    {
        self.phase = ArpPhase::Finished;
        self.binding = ArpBinding::unresolved(self.target_ip);
    }

    fn miss(&mut self)
        requires
            old(self).reads_done < old(self).attempts,
        ensures
            *final(self) == old(self).missed(),
    {
        if self.reads_done + 1 >= self.attempts {
            self.give_up();
            self.reads_done = self.attempts;
        } else {
            self.reads_done = self.reads_done + 1;
        }
    }

    /// Takes in what happened and says what to do next.
    pub fn on_event(&mut self, event: &ArpEvent) -> (a: ArpAction)
        requires
            old(self).wf(),
        ensures
            *final(self) == old(self).next(event@),
            final(self).wf(),
            a@ == final(self).pending(),
    {
        match self.phase {
            ArpPhase::Finished => {},
            ArpPhase::Sending => match event {
                ArpEvent::Sent => {
                    if self.attempts == 0 {
                        self.give_up();
                    } else {
                        self.phase = ArpPhase::Receiving;
                    }
                },
                _ => {
                    self.give_up();
                },
            },
            ArpPhase::Receiving => match event {
                ArpEvent::Frame(bytes) => {
                    let mut answered: bool = false;
                    match ArpFrame::decode(bytes.as_slice()) {
                        Some(frame) => {
                            if frame.is_reply() && frame.arp.sender_hw_addr != self.own_mac {
                                self.phase = ArpPhase::Finished;
                                self.reads_done = self.reads_done + 1;
                                self.binding = ArpBinding::resolved(
                                    self.target_ip,
                                    frame.arp.sender_hw_addr,
                                );
                                answered = true;
                            }
                        },
                        None => {},
                    }
                    if !answered {
                        self.miss();
                    }
                },
                _ => {
                    self.miss();
                },
            },
        }
        self.action()
    }
}

/// Every state that a well-formed resolver reaches is well-formed, and the
/// addresses and limits it was started with stay as they were.
pub proof fn lemma_next_preserves(s: ArpResolver, event: ArpEventView)
    requires
        s.wf(),
    ensures
        s.next(event).wf(),
        s.next(event).own_mac == s.own_mac,
        s.next(event).own_ip == s.own_ip,
        s.next(event).target_ip == s.target_ip,
        s.next(event).attempts == s.attempts,
        s.next(event).per_attempt_timeout_ms == s.per_attempt_timeout_ms,
        s.next(event).reads_issued() >= s.reads_issued(),
{
}

/// The same over a whole sequence of events.
pub proof fn lemma_run_preserves(s: ArpResolver, events: Seq<ArpEventView>)
    requires
        s.wf(),
    ensures
        s.run(events).wf(),
        s.run(events).own_mac == s.own_mac,
        s.run(events).own_ip == s.own_ip,
        s.run(events).target_ip == s.target_ip,
        s.run(events).attempts == s.attempts,
        s.run(events).per_attempt_timeout_ms == s.per_attempt_timeout_ms,
        s.run(events).reads_issued() >= s.reads_issued(),
    decreases events.len(),
{
    if events.len() > 0 {
        lemma_next_preserves(s, events[0]);
        lemma_run_preserves(s.next(events[0]), events.drop_first());
    }
}

/// Asked for the interface's own address, a resolver is finished from the
/// start with the interface's hardware address, and whatever it is told
/// afterwards it never asks for a frame to be sent or read.
pub proof fn lemma_own_address_needs_no_io(
    own_mac: MacAddr,
    own_ip: Ipv4,
    attempts: u32,
    per_attempt_timeout_ms: u64,
    events: Seq<ArpEventView>,
)
    ensures
        ArpResolver::initial(own_mac, own_ip, own_ip, attempts, per_attempt_timeout_ms).pending()
            == ArpActionView::Done(ArpBinding::spec_resolved(own_ip, own_mac)),
        ArpResolver::initial(own_mac, own_ip, own_ip, attempts, per_attempt_timeout_ms).run(
            events,
        ) == ArpResolver::initial(own_mac, own_ip, own_ip, attempts, per_attempt_timeout_ms),
        ArpResolver::initial(own_mac, own_ip, own_ip, attempts, per_attempt_timeout_ms).run(
            events,
        ).reads_issued() == 0,
    decreases events.len(),
{
    let s = ArpResolver::initial(own_mac, own_ip, own_ip, attempts, per_attempt_timeout_ms);
    if events.len() > 0 {
        assert(s.next(events[0]) == s);
        lemma_own_address_needs_no_io(
            own_mac,
            own_ip,
            attempts,
            per_attempt_timeout_ms,
            events.drop_first(),
        );
    }
}

/// The request going out and then `k` reads timing out.
pub open spec fn silence(k: nat) -> Seq<ArpEventView> {
    seq![ArpEventView::Sent] + Seq::new(k, |i: int| ArpEventView::TimedOut)
}

/// After the request went out and `k` reads timed out, `k` below the number
/// of attempts, a well-formed resolver that was sending is waiting for read
/// number `k + 1`.
proof fn lemma_silence_prefix(s: ArpResolver, k: nat)
    requires
        s.wf(),
        s.phase == ArpPhase::Sending,
        k < s.attempts,
    ensures
        s.run(silence(k)) == (ArpResolver {
            phase: ArpPhase::Receiving,
            reads_done: k as u32,
            ..s
        }),
    decreases k,
{
    if k == 0 {
        let ev = silence(0);
        assert(ev.len() == 1);
        assert(ev[0] == ArpEventView::Sent);
        assert(ev.drop_first().len() == 0);
        assert(s.run(ev) == s.next(ev[0]).run(ev.drop_first()));
    } else {
        lemma_silence_prefix(s, (k - 1) as nat);
        lemma_run_push(s, silence((k - 1) as nat), ArpEventView::TimedOut);
        assert(silence(k) =~= silence((k - 1) as nat).push(ArpEventView::TimedOut));
    }
}

/// Running one more event is one more step.
pub proof fn lemma_run_push(s: ArpResolver, events: Seq<ArpEventView>, last: ArpEventView)
    ensures
        s.run(events.push(last)) == s.run(events).next(last),
    decreases events.len(),
{
    let longer = events.push(last);
    if events.len() == 0 {
        assert(longer.drop_first().len() == 0);
        assert(longer[0] == last);
        assert(s.run(longer) == s.next(last).run(longer.drop_first()));
    } else {
        assert(longer[0] == events[0]);
        assert(longer.drop_first() =~= events.drop_first().push(last));
        lemma_run_push(s.next(events[0]), events.drop_first(), last);
    }
}

/// A host that never answers: once the request is out, the resolver keeps
/// asking for one read at a time while fewer than `attempts` reads have timed
/// out, and with the read that makes it `attempts` it ends with an unresolved
/// binding and the zero hardware address. All the reads together were allowed
/// to wait `attempts` times the timeout of one.
pub proof fn lemma_silent_host(
    own_mac: MacAddr,
    own_ip: Ipv4,
    target_ip: Ipv4,
    attempts: u32,
    per_attempt_timeout_ms: u64,
    k: nat,
)
    requires
        target_ip != own_ip,
        k <= attempts,
    ensures
        k < attempts ==> ArpResolver::initial(
            own_mac,
            own_ip,
            target_ip,
            attempts,
            per_attempt_timeout_ms,
        ).run(silence(k)).pending() == (ArpActionView::Receive {
            timeout_ms: per_attempt_timeout_ms,
        }),
        k == attempts ==> ArpResolver::initial(
            own_mac,
            own_ip,
            target_ip,
            attempts,
            per_attempt_timeout_ms,
        ).run(silence(k)).pending() == ArpActionView::Done(
            ArpBinding::spec_unresolved(target_ip),
        ),
        ArpResolver::initial(own_mac, own_ip, target_ip, attempts, per_attempt_timeout_ms).run(
            silence(k),
        ).reads_done == k,
        k == attempts ==> ArpResolver::initial(
            own_mac,
            own_ip,
            target_ip,
            attempts,
            per_attempt_timeout_ms,
        ).run(silence(k)).wait_requested_ms() == attempts * per_attempt_timeout_ms,
{
    let s = ArpResolver::initial(own_mac, own_ip, target_ip, attempts, per_attempt_timeout_ms);
    if k < attempts {
        lemma_silence_prefix(s, k);
    } else if attempts == 0 {
        let ev = silence(0);
        assert(ev.len() == 1);
        assert(ev[0] == ArpEventView::Sent);
        assert(ev.drop_first().len() == 0);
        assert(s.run(ev) == s.next(ev[0]).run(ev.drop_first()));
    } else {
        lemma_silence_prefix(s, (k - 1) as nat);
        lemma_run_push(s, silence((k - 1) as nat), ArpEventView::TimedOut);
        assert(silence(k) =~= silence((k - 1) as nat).push(ArpEventView::TimedOut));
    }
}

/// Whatever happens, a resolver asks for no more reads than the attempts it
/// was given, so that it asks its caller to wait no longer than `attempts`
/// times the timeout of one read.
pub proof fn lemma_wait_is_bounded(
    own_mac: MacAddr,
    own_ip: Ipv4,
    target_ip: Ipv4,
    attempts: u32,
    per_attempt_timeout_ms: u64,
    events: Seq<ArpEventView>,
)
    ensures
        ArpResolver::initial(own_mac, own_ip, target_ip, attempts, per_attempt_timeout_ms).run(
            events,
        ).reads_issued() <= attempts,
        ArpResolver::initial(own_mac, own_ip, target_ip, attempts, per_attempt_timeout_ms).run(
            events,
        ).wait_requested_ms() <= attempts * per_attempt_timeout_ms,
{
    let s = ArpResolver::initial(own_mac, own_ip, target_ip, attempts, per_attempt_timeout_ms);
    lemma_run_preserves(s, events);
    let e = s.run(events);
    assert(e.reads_issued() <= attempts);
    assert(e.reads_issued() * per_attempt_timeout_ms <= attempts * per_attempt_timeout_ms)
        by (nonlinear_arith)
        requires
            0 <= e.reads_issued() <= attempts,
            0 <= per_attempt_timeout_ms,
    ;
}

} // verus!
